//! Codec for IEEE 802.15.4 MAC frames.
//!
//! Turns an in-memory byte buffer into a structured [`frame::Frame`] and
//! back, including the optional link-layer security transform around the
//! payload.

pub mod address;
pub mod beacon;
pub mod command;
pub mod frame;
pub mod header;
pub mod security;
pub mod transform;
pub mod wire;

pub use address::{Address, ExtendedAddress, PanId, ShortAddress};
pub use beacon::{Beacon, BeaconOrder, GuaranteedTimeSlotInformation, PendingAddress, SuperframeOrder, SuperframeSpecification};
pub use command::Command;
pub use frame::{DecodeError, FooterMode, Frame, FrameContent};
pub use header::{FrameType, FrameVersion, Header};
pub use security::{AuxiliarySecurityHeader, KeyIdentifier, KeySource, SecurityLevel};
pub use transform::{AeadInPlaceCipher, KeyAddressMode, KeyDescriptor, KeyDescriptorLookup, SecurityContext, SecurityError};

use vstd::prelude::*;

verus! {

} // verus!
