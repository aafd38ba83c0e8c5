//! The MAC command frame body.
//!
//! Only the parameterless commands are modelled: a command that carries
//! parameters decodes to an invalid value. The body is the 1-byte command
//! identifier.

use crate::frame::DecodeError;
use crate::wire::read_u8;
use vstd::prelude::*;

verus! {

/// A parameterless MAC command.
#[derive(Clone, Copy, PartialEq, Eq, Hash, Debug)]
pub enum Command {
    /// The device asks the coordinator for pending data.
    DataRequest,
    /// The device announces a PAN identifier conflict.
    PanIdConflictNotification,
    /// An orphaned device looks for its coordinator.
    OrphanNotification,
    /// The device asks coordinators to send beacons.
    BeaconRequest,
}

/// The 1-byte identifier of a command.
pub open spec fn spec_command_id(c: Command) -> u8 {
    match c {
        Command::DataRequest => 4,
        Command::PanIdConflictNotification => 5,
        Command::OrphanNotification => 6,
        Command::BeaconRequest => 7,
    }
}

/// The wire bytes of a command body.
pub open spec fn spec_encode_command(c: Command) -> Seq<u8> {
    seq![spec_command_id(c)]
}

/// What decoding a command body at `pos` yields: the parameterless
/// command named by the identifier byte, or nothing for any other
/// identifier.
pub open spec fn spec_decode_command(s: Seq<u8>, pos: int) -> Option<(Command, int)> {
    if pos + 1 > s.len() {
        Option::None
    } else if s[pos] == 4 {
        Option::Some((Command::DataRequest, pos + 1))
    } else if s[pos] == 5 {
        Option::Some((Command::PanIdConflictNotification, pos + 1))
    } else if s[pos] == 6 {
        Option::Some((Command::OrphanNotification, pos + 1))
    } else if s[pos] == 7 {
        Option::Some((Command::BeaconRequest, pos + 1))
    } else {
        Option::None
    }
}

impl Command {
    /// Appends the wire bytes of this command body to `buf`.
    pub fn try_write(&self, buf: &mut Vec<u8>) -> (n: usize)
        ensures
            final(buf)@ == old(buf)@ + spec_encode_command(*self),
            n == spec_encode_command(*self).len(),
    {
        let id: u8 = match self {
            Command::DataRequest => 4,
            Command::PanIdConflictNotification => 5,
            Command::OrphanNotification => 6,
            Command::BeaconRequest => 7,
        };
        buf.push(id);
        assert(buf@ =~= old(buf)@ + spec_encode_command(*self));
        1
    }

    /// Decodes a command body at `pos`, mirroring [`spec_decode_command`].
    pub fn try_read(bytes: &[u8], pos: usize) -> (r: Result<(Command, usize), DecodeError>)
        requires
            pos <= bytes@.len(),
        ensures
            match r {
                Ok((c, end)) => {
                    &&& spec_decode_command(bytes@, pos as int) == Option::Some((c, end as int))
                    &&& pos <= end <= bytes@.len()
                },
                Err(e) => spec_decode_command(bytes@, pos as int) is None,
            },
    {
        let n: usize = bytes.len();
        if n - pos < 1 {
            return Err(DecodeError::NotEnoughBytes);
        }
        let id = read_u8(bytes, pos);
        if id == 4 {
            Ok((Command::DataRequest, pos + 1))
        } else if id == 5 {
            Ok((Command::PanIdConflictNotification, pos + 1))
        } else if id == 6 {
            Ok((Command::OrphanNotification, pos + 1))
        } else if id == 7 {
            Ok((Command::BeaconRequest, pos + 1))
        } else {
            Err(DecodeError::InvalidValue)
        }
    }
}

/// Decoding reverses encoding for a command body.
pub proof fn lemma_command_round_trip(s: Seq<u8>, pos: int, c: Command)
    requires
        0 <= pos,
        pos + 1 <= s.len(),
        s.subrange(pos, pos + 1) == spec_encode_command(c),
    ensures
        spec_decode_command(s, pos) == Option::Some((c, pos + 1)),
{
    assert(s[pos] == spec_encode_command(c)[0]) by {
        assert(s.subrange(pos, pos + 1)[0] == s[pos]);
    }
}

} // verus!
