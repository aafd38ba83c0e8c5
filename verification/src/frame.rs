//! The MAC frame itself: header, content, payload and footer, with the
//! top-level encoder and decoder and the errors they report.

use crate::beacon::{
    spec_beacon_wf, spec_decode_beacon, spec_encode_beacon, lemma_beacon_round_trip, Beacon,
};
use crate::command::{
    spec_decode_command, spec_encode_command, lemma_command_round_trip, Command,
};
use crate::header::{
    spec_decode_header, spec_encode_header, spec_header_wf, lemma_header_round_trip, FrameType,
    Header,
};
use crate::wire::read_u8;
use vstd::bytes::spec_u16_from_le_bytes;
use vstd::prelude::*;
use vstd::slice::slice_subrange;

verus! {

/// Whether the 2-byte checksum footer is read and written with the frame.
/// The footer is carried verbatim; this codec never computes it.
#[derive(Clone, Copy, PartialEq, Eq, Hash, Debug)]
pub enum FooterMode {
    /// The footer is neither read nor written.
    Omitted,
    /// The footer is read into, and written from, the frame's `footer`
    /// field.
    Explicit,
}

impl Default for FooterMode {
    /// The footer is left alone unless a caller asks for it.
    fn default() -> (r: Self)
        ensures
            r == FooterMode::Omitted,
    {
        Self::Omitted
    }
}

/// One malformed-input condition found while decoding bytes. No variant
/// mutates caller-owned state; the buffer is simply not consumed past the
/// failure point.
#[derive(Clone, Copy, PartialEq, Eq, Hash, Debug)]
pub enum DecodeError {
    /// The buffer does not hold enough bytes.
    NotEnoughBytes,
    /// The 3-bit frame type field holds the given unknown value.
    InvalidFrameType(u8),
    /// The frame uses a security facility that this codec does not offer.
    SecurityNotSupported,
    /// An address-mode field holds the given invalid value.
    InvalidAddressMode(u8),
    /// The 2-bit frame version field holds the given unknown value.
    InvalidFrameVersion(u8),
    /// The auxiliary security header's security level is invalid.
    InvalidSecurityLevel(u8),
    /// The auxiliary security header's key identifier mode is invalid.
    InvalidKeyIdentifierMode(u8),
    /// Security is disabled, but an auxiliary security header is present.
    SecurityNotEnabled,
    /// Security is enabled, but no auxiliary security header is present.
    AuxSecHeaderAbsent,
    /// The data stream holds an invalid value.
    InvalidValue,
}

/// The type-specific body of a frame. Data and acknowledgement frames
/// carry no body of their own; beacon and command frames carry theirs.
#[derive(Clone, Copy, PartialEq, Eq, Hash, Debug)]
pub enum FrameContent {
    /// A beacon body.
    Beacon(Beacon),
    /// A data frame: no body, the payload follows directly.
    Data,
    /// An acknowledgement frame: no body.
    Acknowledgement,
    /// A MAC command body.
    Command(Command),
}

/// The wire bytes of a frame body.
pub open spec fn spec_encode_content(c: FrameContent) -> Seq<u8> {
    match c {
        FrameContent::Beacon(b) => spec_encode_beacon(b),
        FrameContent::Data => Seq::empty(),
        FrameContent::Acknowledgement => Seq::empty(),
        FrameContent::Command(cmd) => spec_encode_command(cmd),
    }
}

/// What decoding a frame body at `pos` yields, dispatched on the frame
/// type announced by the header.
pub open spec fn spec_decode_content(s: Seq<u8>, pos: int, t: FrameType) -> Option<
    (FrameContent, int),
> {
    match t {
        FrameType::Beacon => match spec_decode_beacon(s, pos) {
            Option::Some((b, end)) => Option::Some((FrameContent::Beacon(b), end)),
            Option::None => Option::None,
        },
        FrameType::Data => Option::Some((FrameContent::Data, pos)),
        FrameType::Acknowledgement => Option::Some((FrameContent::Acknowledgement, pos)),
        FrameType::MacCommand => match spec_decode_command(s, pos) {
            Option::Some((c, end)) => Option::Some((FrameContent::Command(c), end)),
            Option::None => Option::None,
        },
    }
}

/// The content's tag agrees with the header's frame type, and a beacon
/// body is representable.
pub open spec fn spec_content_wf(c: FrameContent, t: FrameType) -> bool {
    &&& (c is Beacon <==> t == FrameType::Beacon)
    &&& (c is Data <==> t == FrameType::Data)
    &&& (c is Acknowledgement <==> t == FrameType::Acknowledgement)
    &&& (c is Command <==> t == FrameType::MacCommand)
    &&& (c matches FrameContent::Beacon(b) ==> spec_beacon_wf(b))
}

impl FrameContent {
    /// Appends the wire bytes of this body to `buf`.
    pub fn try_write(&self, buf: &mut Vec<u8>) -> (n: usize)
        ensures
            final(buf)@ == old(buf)@ + spec_encode_content(*self),
            n == spec_encode_content(*self).len(),
    {
        match self {
            FrameContent::Beacon(b) => b.try_write(buf),
            FrameContent::Data | FrameContent::Acknowledgement => {
                assert(buf@ =~= old(buf)@ + spec_encode_content(*self));
                0
            },
            FrameContent::Command(c) => c.try_write(buf),
        }
    }

    /// Decodes the body announced by `header` at `pos`, mirroring
    /// [`spec_decode_content`].
    pub fn try_read(bytes: &[u8], pos: usize, header: &Header) -> (r: Result<
        (FrameContent, usize),
        DecodeError,
    >)
        requires
            pos <= bytes@.len(),
        ensures
            match r {
                Ok((c, end)) => {
                    &&& spec_decode_content(bytes@, pos as int, header.frame_type)
                        == Option::Some((c, end as int))
                    &&& pos <= end <= bytes@.len()
                },
                Err(e) => spec_decode_content(bytes@, pos as int, header.frame_type) is None,
            },
    {
        match header.frame_type {
            FrameType::Beacon => match Beacon::try_read(bytes, pos) {
                Ok((b, end)) => Ok((FrameContent::Beacon(b), end)),
                Err(e) => Err(e),
            },
            FrameType::Data => Ok((FrameContent::Data, pos)),
            FrameType::Acknowledgement => Ok((FrameContent::Acknowledgement, pos)),
            FrameType::MacCommand => match Command::try_read(bytes, pos) {
                Ok((c, end)) => Ok((FrameContent::Command(c), end)),
                Err(e) => Err(e),
            },
        }
    }
}

/// An IEEE 802.15.4 MAC frame: header, type-specific content, payload
/// and the 2-byte checksum footer. The payload borrows the buffer the
/// frame was decoded from, or the caller's bytes when encoding; the
/// footer is carried verbatim, never computed.
#[derive(Clone, Copy, PartialEq, Eq, Hash, Debug)]
pub struct Frame<'p> {
    /// The header.
    pub header: Header,
    /// The type-specific content.
    pub content: FrameContent,
    /// The payload.
    pub payload: &'p [u8],
    /// The 2-byte checksum, written and read verbatim.
    pub footer: [u8; 2],
}

/// The wire bytes of a whole frame: header, content, payload, and the
/// footer when the mode asks for it.
pub open spec fn spec_encode_frame(
    h: Header,
    c: FrameContent,
    payload: Seq<u8>,
    footer: Seq<u8>,
    mode: FooterMode,
) -> Seq<u8> {
    spec_encode_header(h) + spec_encode_content(c) + payload + (match mode {
        FooterMode::Omitted => Seq::<u8>::empty(),
        FooterMode::Explicit => footer,
    })
}

/// What decoding a whole buffer yields: header, content, payload view,
/// footer and the number of bytes consumed — always the whole buffer,
/// since the payload is everything the header and content did not claim,
/// minus the trailing footer when the mode asks for one.
pub open spec fn spec_decode_frame(s: Seq<u8>, mode: FooterMode) -> Option<
    (Header, FrameContent, Seq<u8>, Seq<u8>, int),
> {
    match spec_decode_header(s, 0) {
        Option::None => Option::None,
        Option::Some((h, p1)) => match spec_decode_content(s, p1, h.frame_type) {
            Option::None => Option::None,
            Option::Some((c, p2)) => match mode {
                FooterMode::Omitted => Option::Some(
                    (h, c, s.subrange(p2, s.len() as int), seq![0u8, 0u8], s.len() as int),
                ),
                FooterMode::Explicit => {
                    if p2 + 2 <= s.len() {
                        Option::Some(
                            (
                                h,
                                c,
                                s.subrange(p2, s.len() - 2),
                                s.subrange(s.len() - 2, s.len() as int),
                                s.len() as int,
                            ),
                        )
                    } else {
                        Option::None
                    }
                },
            },
        },
    }
}

/// A frame the codec can reproduce: well-formed header, content matching
/// the frame type.
pub open spec fn spec_frame_wf(h: Header, c: FrameContent) -> bool {
    &&& spec_header_wf(h)
    &&& spec_content_wf(c, h.frame_type)
}

impl<'p> Frame<'p> {
    /// Appends the wire bytes of this frame to `buf` and returns how
    /// many bytes that took: header, content, payload, and the footer
    /// under `FooterMode::Explicit`.
    pub fn try_write(&self, buf: &mut Vec<u8>, mode: FooterMode) -> (n: usize)
        ensures
            final(buf)@ == old(buf)@ + spec_encode_frame(
                self.header,
                self.content,
                self.payload@,
                self.footer@,
                mode,
            ),
            n == spec_encode_frame(
                self.header,
                self.content,
                self.payload@,
                self.footer@,
                mode,
            ).len(),
    {
        let start = buf.len();
        self.header.try_write(buf);
        self.content.try_write(buf);
        let mut i: usize = 0;
        let ghost mid = buf@;
        while i < self.payload.len()
            invariant
                i <= self.payload@.len(),
                buf@ == mid + self.payload@.subrange(0, i as int),
            decreases self.payload@.len() - i,
        {
            buf.push(*vstd::slice::slice_index_get(self.payload, i));
            assert(buf@ =~= mid + self.payload@.subrange(0, i + 1 as int));
            i = i + 1;
        }
        assert(buf@ =~= mid + self.payload@);
        match mode {
            FooterMode::Omitted => {},
            FooterMode::Explicit => {
                buf.push(self.footer[0]);
                buf.push(self.footer[1]);
            },
        }
        assert(buf@ =~= old(buf)@ + spec_encode_frame(
            self.header,
            self.content,
            self.payload@,
            self.footer@,
            mode,
        )) by {
            assert(self.footer@ =~= seq![self.footer@[0], self.footer@[1]]);
        }
        buf.len() - start
    }

    /// Decodes a whole buffer into a frame, mirroring
    /// [`spec_decode_frame`]: the header, the content it announces, then
    /// everything left is the payload — minus the last 2 bytes under
    /// `FooterMode::Explicit`, which become the footer. The payload is a
    /// view into `bytes`, not a copy. A reserved address mode is
    /// reported as `InvalidAddressMode(1)` whatever else the control
    /// word says.
    pub fn try_read(bytes: &'p [u8], mode: FooterMode) -> (r: Result<
        (Frame<'p>, usize),
        DecodeError,
    >)
        ensures
            match r {
                Ok((f, used)) => spec_decode_frame(bytes@, mode) == Option::Some(
                    (f.header, f.content, f.payload@, f.footer@, used as int),
                ),
                Err(e) => spec_decode_frame(bytes@, mode) is None,
            },
            2 <= bytes@.len() && {
                let fc = spec_u16_from_le_bytes(bytes@.subrange(0, 2));
                ((fc >> 10) & 3) == 1 || ((fc >> 14) & 3) == 1
            } ==> r == Result::<(Frame<'p>, usize), DecodeError>::Err(
                DecodeError::InvalidAddressMode(1),
            ),
    {
        let n: usize = bytes.len();
        let (header, p1) = match Header::try_read(bytes, 0) {
            Ok(h) => h,
            Err(e) => {
                return Err(e);
            },
        };
        let (content, p2) = match FrameContent::try_read(bytes, p1, &header) {
            Ok(c) => c,
            Err(e) => {
                return Err(e);
            },
        };
        match mode {
            FooterMode::Omitted => {
                let payload = slice_subrange(bytes, p2, n);
                Ok((Frame { header, content, payload, footer: [0, 0] }, n))
            },
            FooterMode::Explicit => {
                if n - p2 < 2 {
                    return Err(DecodeError::NotEnoughBytes);
                }
                let payload = slice_subrange(bytes, p2, n - 2);
                let footer = [read_u8(bytes, n - 2), read_u8(bytes, n - 1)];
                assert(footer@ =~= bytes@.subrange(n - 2, n as int));
                Ok((Frame { header, content, payload, footer }, n))
            },
        }
    }
}

/// Decoding reverses encoding for the frame body: if the bytes at `pos`
/// hold the encoding of a content matching the frame type, decoding
/// returns it and consumes exactly that encoding.
proof fn lemma_content_round_trip(s: Seq<u8>, pos: int, c: FrameContent, t: FrameType)
    requires
        0 <= pos,
        pos + spec_encode_content(c).len() <= s.len(),
        s.subrange(pos, pos + spec_encode_content(c).len()) == spec_encode_content(c),
        spec_content_wf(c, t),
    ensures
        spec_decode_content(s, pos, t) == Option::Some((c, pos + spec_encode_content(c).len())),
{
    match c {
        FrameContent::Beacon(b) => lemma_beacon_round_trip(s, pos, b),
        FrameContent::Data => {},
        FrameContent::Acknowledgement => {},
        FrameContent::Command(cmd) => lemma_command_round_trip(s, pos, cmd),
    }
}

/// Round trip: a well-formed frame, encoded with an explicit footer and
/// decoded the same way, comes back exactly — header, content, payload
/// and footer — and decoding consumes exactly the encoded bytes.
pub proof fn lemma_frame_round_trip(
    h: Header,
    c: FrameContent,
    payload: Seq<u8>,
    footer: Seq<u8>,
)
    requires
        spec_frame_wf(h, c),
        footer.len() == 2,
    ensures
        spec_decode_frame(
            spec_encode_frame(h, c, payload, footer, FooterMode::Explicit),
            FooterMode::Explicit,
        ) == Option::Some(
            (h, c, payload, footer, spec_encode_frame(
                h,
                c,
                payload,
                footer,
                FooterMode::Explicit,
            ).len() as int),
        ),
{
    let s = spec_encode_frame(h, c, payload, footer, FooterMode::Explicit);
    let eh = spec_encode_header(h);
    let ec = spec_encode_content(c);
    let hl = eh.len() as int;
    let cl = ec.len() as int;
    let pl = payload.len() as int;
    assert(s.len() == hl + cl + pl + 2);
    assert(s.subrange(0, hl) =~= eh);
    lemma_header_round_trip(s, 0, h);
    assert(s.subrange(hl, hl + cl) =~= ec);
    lemma_content_round_trip(s, hl, c, h.frame_type);
    assert(s.subrange(hl + cl, s.len() - 2) =~= payload);
    assert(s.subrange(s.len() - 2, s.len() as int) =~= footer);
}

/// PAN-ID compression saves exactly 2 bytes: with both addresses
/// present, the header encoded with the compression bit set is exactly
/// 2 bytes shorter than the same header with it clear, the width of the
/// source PAN identifier it no longer carries.
pub proof fn lemma_pan_compression_saves_two_bytes(h: Header)
    requires
        h.pan_id_compress,
        h.destination is Some,
        h.source is Some,
    ensures
        spec_encode_header(h).len() + 2 == spec_encode_header(
            Header { pan_id_compress: false, ..h },
        ).len(),
{
    vstd::bytes::lemma_auto_spec_u16_to_from_le_bytes();
    crate::address::lemma_encode_address_len(h.destination, false);
    crate::address::lemma_encode_address_len(h.source, true);
    crate::address::lemma_encode_address_len(h.source, false);
}

} // verus!
