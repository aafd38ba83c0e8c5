use ieee802154_frame::address::{Address, ExtendedAddress, PanId, ShortAddress};
use ieee802154_frame::header::{FrameType, FrameVersion, Header};
use ieee802154_frame::security::{
    AuxiliarySecurityHeader, KeyIdentifier, KeySource, SecurityLevel,
};
use ieee802154_frame::frame::{FooterMode, Frame, FrameContent};
use ieee802154_frame::transform::{
    secure_frame, unsecure_frame, AeadInPlaceCipher, KeyAddressMode, KeyDescriptor,
    KeyDescriptorLookup, SecurityContext, SecurityError,
};

/// A toy in-place cipher for exercising the transform: XOR keystream,
/// checksum tag. Not cryptography; it only honours the trait's shape.
struct XorCipher {
    key: Vec<u8>,
}

fn toy_tag(key: &[u8], nonce: &[u8], associated_data: &[u8], ciphertext: &[u8]) -> Vec<u8> {
    let mut acc: u8 = 0x5a;
    for b in associated_data.iter().chain(ciphertext.iter()) {
        acc = acc.wrapping_add(*b).rotate_left(1);
    }
    let mut tag = Vec::new();
    for i in 0..16usize {
        tag.push(acc ^ key[i] ^ nonce[i % 13] ^ (i as u8));
    }
    tag
}

impl AeadInPlaceCipher for XorCipher {
    fn new_from_slice(key: &[u8]) -> Result<Self, ()> {
        if key.len() == 16 {
            Ok(XorCipher { key: key.to_vec() })
        } else {
            Err(())
        }
    }

    fn encrypt_in_place_detached(
        &self,
        nonce: &[u8],
        associated_data: &[u8],
        buffer: &mut Vec<u8>,
    ) -> Result<Vec<u8>, ()> {
        for i in 0..buffer.len() {
            buffer[i] ^= self.key[i % 16] ^ nonce[i % 13];
        }
        Ok(toy_tag(&self.key, nonce, associated_data, buffer))
    }

    fn decrypt_in_place_detached(
        &self,
        nonce: &[u8],
        associated_data: &[u8],
        buffer: &mut Vec<u8>,
        tag: &[u8],
    ) -> Result<(), ()> {
        let expected = toy_tag(&self.key, nonce, associated_data, buffer);
        // A zero-length tag means the level carries no authentication.
        if tag.len() > 16 || tag != &expected[..tag.len()] {
            return Err(());
        }
        for i in 0..buffer.len() {
            buffer[i] ^= self.key[i % 16] ^ nonce[i % 13];
        }
        Ok(())
    }
}

/// A key store with one key for everyone.
struct OneKey {
    key: Vec<u8>,
}

impl KeyDescriptorLookup for OneKey {
    fn lookup_key(
        &self,
        _address_mode: KeyAddressMode,
        _key_identifier: Option<KeyIdentifier>,
        _device_address: Option<Address>,
    ) -> Option<KeyDescriptor> {
        Some(KeyDescriptor {
            key: self.key.clone(),
        })
    }
}

/// A key store that knows nothing.
struct NoKeys;

impl KeyDescriptorLookup for NoKeys {
    fn lookup_key(
        &self,
        _address_mode: KeyAddressMode,
        _key_identifier: Option<KeyIdentifier>,
        _device_address: Option<Address>,
    ) -> Option<KeyDescriptor> {
        None
    }
}

fn secured_header(level: SecurityLevel) -> Header {
    Header {
        frame_type: FrameType::Data,
        security: true,
        frame_pending: false,
        ack_request: false,
        pan_id_compress: false,
        version: FrameVersion::Ieee802154_2006,
        destination: Some(Address::Short(PanId(0x00aa), ShortAddress(0x1111))),
        source: Some(Address::Extended(
            PanId(0x00bb),
            ExtendedAddress(0x0102030405060708),
        )),
        seq: 1,
        auxiliary_security_header: Some(AuxiliarySecurityHeader {
            security_level: level,
            key_identifier: Some(KeyIdentifier {
                key_source: Some(KeySource::Long(0x1122334455667788)),
                key_index: 1,
            }),
            frame_counter: Some(41),
        }),
    }
}

fn fresh_context() -> SecurityContext<OneKey> {
    SecurityContext {
        frame_counter: 41,
        key_provider: OneKey {
            key: (0u8..16).collect(),
        },
    }
}

#[test]
fn counter_advances_by_one_per_successful_transform() {
    let header = secured_header(SecurityLevel::ENCMIC32);
    let mut ctx = fresh_context();
    let mut seen = Vec::new();
    for round in 0..5u32 {
        let mut payload = vec![1, 2, 3, round as u8];
        seen.push(ctx.frame_counter);
        let r = secure_frame::<XorCipher, OneKey>(&header, &mut payload, &mut ctx);
        assert_eq!(r, Ok(()));
        assert_eq!(ctx.frame_counter, 41 + round + 1);
    }
    // Strictly increasing with step 1, no repeats.
    for w in seen.windows(2) {
        assert_eq!(w[0] + 1, w[1]);
    }
}

#[test]
fn exhausted_counter_always_fails_and_changes_nothing() {
    let header = secured_header(SecurityLevel::MIC64);
    let mut ctx = fresh_context();
    ctx.frame_counter = 0xffff_ffff;
    let mut payload = vec![7, 7, 7];
    let r = secure_frame::<XorCipher, OneKey>(&header, &mut payload, &mut ctx);
    assert_eq!(r, Err(SecurityError::CounterError));
    assert_eq!(ctx.frame_counter, 0xffff_ffff);
    assert_eq!(payload, vec![7, 7, 7]);
}

#[test]
fn tag_length_follows_the_security_level_table() {
    let cases = [
        (SecurityLevel::NoSecurity, 0usize, false),
        (SecurityLevel::MIC32, 4, false),
        (SecurityLevel::MIC64, 8, false),
        (SecurityLevel::MIC128, 16, false),
        (SecurityLevel::ENC, 0, true),
        (SecurityLevel::ENCMIC32, 4, true),
        (SecurityLevel::ENCMIC64, 8, true),
        (SecurityLevel::ENCMIC128, 16, true),
    ];
    for (level, tag_len, encrypts) in cases {
        let header = secured_header(level);
        let mut ctx = fresh_context();
        let clear = vec![0x10, 0x20, 0x30, 0x40, 0x50];
        let mut payload = clear.clone();
        let r = secure_frame::<XorCipher, OneKey>(&header, &mut payload, &mut ctx);
        assert_eq!(r, Ok(()));
        assert_eq!(payload.len(), clear.len() + tag_len);
        if !encrypts {
            // Authenticate-only levels leave the payload bytes alone.
            assert_eq!(&payload[..clear.len()], &clear[..]);
        } else {
            assert_ne!(&payload[..clear.len()], &clear[..]);
        }
    }
}

#[test]
fn secure_then_unsecure_returns_the_original_payload() {
    for level in [
        SecurityLevel::MIC32,
        SecurityLevel::ENC,
        SecurityLevel::ENCMIC128,
    ] {
        let mut header = secured_header(level);
        let mut ctx = fresh_context();
        let clear = vec![0xde, 0xad, 0xbe, 0xef];
        let mut payload = clear.clone();
        assert_eq!(
            secure_frame::<XorCipher, OneKey>(&header, &mut payload, &mut ctx),
            Ok(())
        );
        // The receiver sees the counter the sender used, in the wire
        // header.
        if let Some(aux) = header.auxiliary_security_header.as_mut() {
            aux.frame_counter = Some(41);
        }
        assert_eq!(
            unsecure_frame::<XorCipher, OneKey>(&header, &mut payload, &ctx),
            Ok(())
        );
        assert_eq!(payload, clear);
    }
}

#[test]
fn tampered_tag_is_rejected_and_payload_untouched() {
    let mut header = secured_header(SecurityLevel::ENCMIC64);
    let mut ctx = fresh_context();
    let mut payload = vec![1, 2, 3];
    assert_eq!(
        secure_frame::<XorCipher, OneKey>(&header, &mut payload, &mut ctx),
        Ok(())
    );
    let last = payload.len() - 1;
    payload[last] ^= 0xff;
    if let Some(aux) = header.auxiliary_security_header.as_mut() {
        aux.frame_counter = Some(41);
    }
    let as_received = payload.clone();
    assert_eq!(
        unsecure_frame::<XorCipher, OneKey>(&header, &mut payload, &ctx),
        Err(SecurityError::VerificationFailed)
    );
    assert_eq!(payload, as_received);
}

#[test]
fn missing_key_is_reported_and_counter_untouched() {
    let header = secured_header(SecurityLevel::MIC32);
    let mut ctx = SecurityContext {
        frame_counter: 9,
        key_provider: NoKeys,
    };
    let mut payload = vec![5];
    assert_eq!(
        secure_frame::<XorCipher, NoKeys>(&header, &mut payload, &mut ctx),
        Err(SecurityError::UnavailableKey)
    );
    assert_eq!(ctx.frame_counter, 9);
    assert_eq!(payload, vec![5]);
}

#[test]
fn unusable_key_is_reported() {
    let header = secured_header(SecurityLevel::MIC32);
    let mut ctx = SecurityContext {
        frame_counter: 0,
        key_provider: OneKey {
            key: vec![1, 2, 3], // the cipher wants 16 bytes
        },
    };
    let mut payload = vec![5];
    assert_eq!(
        secure_frame::<XorCipher, OneKey>(&header, &mut payload, &mut ctx),
        Err(SecurityError::KeyFailure)
    );
    assert_eq!(ctx.frame_counter, 0);
    assert_eq!(payload, vec![5]);
}

#[test]
fn nonce_needs_an_extended_source_address() {
    let mut header = secured_header(SecurityLevel::ENCMIC32);
    header.source = Some(Address::Short(PanId(1), ShortAddress(2)));
    let mut ctx = fresh_context();
    let mut payload = vec![1];
    assert_eq!(
        secure_frame::<XorCipher, OneKey>(&header, &mut payload, &mut ctx),
        Err(SecurityError::NoSourceAddress)
    );
    assert_eq!(ctx.frame_counter, 41);
}

#[test]
fn contract_violations_are_reported_not_aborted() {
    let mut ctx = fresh_context();
    // Security off, auxiliary header present.
    let mut off = secured_header(SecurityLevel::MIC32);
    off.security = false;
    let mut payload = vec![1];
    assert_eq!(
        secure_frame::<XorCipher, OneKey>(&off, &mut payload, &mut ctx),
        Err(SecurityError::SecurityNotEnabled)
    );
    // Security on, no auxiliary header.
    let mut on = secured_header(SecurityLevel::MIC32);
    on.auxiliary_security_header = None;
    assert_eq!(
        secure_frame::<XorCipher, OneKey>(&on, &mut payload, &mut ctx),
        Err(SecurityError::AuxSecHeaderAbsent)
    );
    assert_eq!(ctx.frame_counter, 41);
    assert_eq!(payload, vec![1]);
}

#[test]
fn security_off_is_a_no_op() {
    let header = Header {
        frame_type: FrameType::Data,
        security: false,
        frame_pending: false,
        ack_request: false,
        pan_id_compress: false,
        version: FrameVersion::Ieee802154_2003,
        destination: None,
        source: None,
        seq: 0,
        auxiliary_security_header: None,
    };
    let mut ctx = fresh_context();
    let mut payload = vec![3, 1, 4];
    assert_eq!(
        secure_frame::<XorCipher, OneKey>(&header, &mut payload, &mut ctx),
        Ok(())
    );
    assert_eq!(payload, vec![3, 1, 4]);
    assert_eq!(ctx.frame_counter, 41);
    assert_eq!(
        unsecure_frame::<XorCipher, OneKey>(&header, &mut payload, &ctx),
        Ok(())
    );
    assert_eq!(payload, vec![3, 1, 4]);
}

#[test]
fn received_frame_without_counter_cannot_be_unsecured() {
    let mut header = secured_header(SecurityLevel::MIC32);
    header.version = FrameVersion::Ieee802154;
    if let Some(aux) = header.auxiliary_security_header.as_mut() {
        aux.frame_counter = None;
    }
    let ctx = fresh_context();
    let mut payload = vec![0, 0, 0, 0, 0];
    assert_eq!(
        unsecure_frame::<XorCipher, OneKey>(&header, &mut payload, &ctx),
        Err(SecurityError::CounterError)
    );
    assert_eq!(payload, vec![0, 0, 0, 0, 0]);
}

#[test]
fn full_pipeline_secure_encode_decode_unsecure() {
    let header = secured_header(SecurityLevel::ENCMIC32);
    let mut ctx = fresh_context();
    let clear = vec![0x11, 0x22, 0x33];

    // Sender: secure the payload, then encode the frame around it.
    let mut payload = clear.clone();
    assert_eq!(
        secure_frame::<XorCipher, OneKey>(&header, &mut payload, &mut ctx),
        Ok(())
    );
    let frame = Frame {
        header,
        content: FrameContent::Data,
        payload: &payload,
        footer: [0, 0],
    };
    let mut wire: Vec<u8> = Vec::new();
    frame.try_write(&mut wire, FooterMode::Explicit);

    // Receiver: decode first, unsecure before trusting the payload.
    let (received, _) = Frame::try_read(&wire, FooterMode::Explicit).unwrap();
    assert_eq!(received.header, header);
    let mut received_payload = received.payload.to_vec();
    assert_eq!(
        unsecure_frame::<XorCipher, OneKey>(&received.header, &mut received_payload, &ctx),
        Ok(())
    );
    assert_eq!(received_payload, clear);
}
