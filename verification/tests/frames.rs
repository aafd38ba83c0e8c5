use ieee802154_frame::address::{Address, ExtendedAddress, PanId, ShortAddress};
use ieee802154_frame::beacon;
use ieee802154_frame::command;
use ieee802154_frame::frame::{DecodeError, FooterMode, Frame, FrameContent};
use ieee802154_frame::header::{FrameType, FrameVersion, Header};
use ieee802154_frame::security::{
    AuxiliarySecurityHeader, KeyIdentifier, KeySource, SecurityLevel,
};

#[test]
fn decode_ver0_pan_id_compression() {
    let data = [
        0x41, 0x88, 0x91, 0x8f, 0x20, 0xff, 0xff, 0x33, 0x44, 0x00, 0x00,
    ];
    let (frame, _) = Frame::try_read(&data, FooterMode::Omitted).unwrap();
    let hdr = frame.header;
    assert_eq!(hdr.frame_type, FrameType::Data);
    assert_eq!(hdr.security, false);
    assert_eq!(hdr.frame_pending, false);
    assert_eq!(hdr.ack_request, false);
    assert_eq!(hdr.pan_id_compress, true);
    assert_eq!(hdr.version, FrameVersion::Ieee802154_2003);
    assert_eq!(
        frame.header.destination,
        Some(Address::Short(PanId(0x208f), ShortAddress(0xffff)))
    );
    assert_eq!(
        frame.header.source,
        Some(Address::Short(PanId(0x208f), ShortAddress(0x4433)))
    );
    assert_eq!(frame.header.seq, 145);
}

#[test]
fn decode_ver0_pan_id_compression_bad() {
    let data = [
        0x41, 0x80, 0x91, 0x8f, 0x20, 0xff, 0xff, 0x33, 0x44, 0x00, 0x00,
    ];
    let frame = Frame::try_read(&data, FooterMode::Omitted);
    assert!(frame.is_err());
    if let Err(e) = frame {
        assert_eq!(e, DecodeError::InvalidAddressMode(0))
    }
}

#[test]
fn decode_ver0_extended() {
    let data = [
        0x21, 0xc8, 0x8b, 0xff, 0xff, 0x02, 0x00, 0x23, 0x00, 0x60, 0xe2, 0x16, 0x21, 0x1c, 0x4a,
        0xc2, 0xae, 0xaa, 0xbb, 0xcc,
    ];
    let (frame, _) = Frame::try_read(&data, FooterMode::Omitted).unwrap();
    let hdr = frame.header;
    assert_eq!(hdr.frame_type, FrameType::Data);
    assert_eq!(hdr.security, false);
    assert_eq!(hdr.frame_pending, false);
    assert_eq!(hdr.ack_request, true);
    assert_eq!(hdr.pan_id_compress, false);
    assert_eq!(hdr.version, FrameVersion::Ieee802154_2003);
    assert_eq!(
        frame.header.destination,
        Some(Address::Short(PanId(0xffff), ShortAddress(0x0002)))
    );
    assert_eq!(
        frame.header.source,
        Some(Address::Extended(
            PanId(0x0023),
            ExtendedAddress(0xaec24a1c2116e260)
        ))
    );
    assert_eq!(frame.header.seq, 139);
}

#[test]
fn encode_ver0_short() {
    let frame = Frame {
        header: Header {
            frame_type: FrameType::Data,
            security: false,
            frame_pending: false,
            ack_request: false,
            pan_id_compress: false,
            version: FrameVersion::Ieee802154_2003,
            destination: Some(Address::Short(PanId(0x1234), ShortAddress(0x5678))),
            source: Some(Address::Short(PanId(0x4321), ShortAddress(0x9abc))),
            seq: 0x01,
            auxiliary_security_header: None,
        },
        content: FrameContent::Data,
        payload: &[0xde, 0xf0],
        footer: [0x00, 0x00],
    };
    let mut buf: Vec<u8> = Vec::new();
    let len = frame.try_write(&mut buf, FooterMode::Omitted);
    assert_eq!(len, 13);
    assert_eq!(
        buf,
        [0x01, 0x88, 0x01, 0x34, 0x12, 0x78, 0x56, 0x21, 0x43, 0xbc, 0x9a, 0xde, 0xf0]
    );
}

#[test]
fn encode_ver1_extended() {
    let frame = Frame {
        header: Header {
            frame_type: FrameType::Beacon,
            security: false,
            frame_pending: true,
            ack_request: false,
            pan_id_compress: false,
            version: FrameVersion::Ieee802154_2006,
            destination: Some(Address::Extended(
                PanId(0x1234),
                ExtendedAddress(0x1122334455667788),
            )),
            source: Some(Address::Short(PanId(0x4321), ShortAddress(0x9abc))),
            seq: 0xff,
            auxiliary_security_header: None,
        },
        content: FrameContent::Beacon(beacon::Beacon {
            superframe_spec: beacon::SuperframeSpecification {
                beacon_order: beacon::BeaconOrder::OnDemand,
                superframe_order: beacon::SuperframeOrder::Inactive,
                final_cap_slot: 15,
                battery_life_extension: false,
                pan_coordinator: false,
                association_permit: false,
            },
            guaranteed_time_slot_info: beacon::GuaranteedTimeSlotInformation::new(),
            pending_address: beacon::PendingAddress::new(),
        }),
        payload: &[0xde, 0xf0],
        footer: [0x00, 0x00],
    };
    let mut buf: Vec<u8> = Vec::new();
    let len = frame.try_write(&mut buf, FooterMode::Omitted);
    assert_eq!(len, 23);
    assert_eq!(
        buf,
        [
            0x10, 0x9c, 0xff, 0x34, 0x12, 0x88, 0x77, 0x66, 0x55, 0x44, 0x33, 0x22, 0x11, 0x21,
            0x43, 0xbc, 0x9a, 0xff, 0x0f, 0x00, 0x00, 0xde, 0xf0
        ]
    );
}

#[test]
fn encode_ver0_pan_compress() {
    let frame = Frame {
        header: Header {
            frame_type: FrameType::Acknowledgement,
            security: false,
            frame_pending: false,
            ack_request: false,
            pan_id_compress: true,
            version: FrameVersion::Ieee802154_2003,
            destination: Some(Address::Extended(
                PanId(0x1234),
                ExtendedAddress(0x1122334455667788),
            )),
            source: Some(Address::Short(PanId(0x1234), ShortAddress(0x9abc))),
            seq: 0xff,
            auxiliary_security_header: None,
        },
        content: FrameContent::Acknowledgement,
        payload: &[],
        footer: [0x00, 0x00],
    };
    let mut buf: Vec<u8> = Vec::new();
    let len = frame.try_write(&mut buf, FooterMode::Omitted);
    assert_eq!(len, 15);
    assert_eq!(
        buf,
        [0x42, 0x8c, 0xff, 0x34, 0x12, 0x88, 0x77, 0x66, 0x55, 0x44, 0x33, 0x22, 0x11, 0xbc, 0x9a]
    );
}

#[test]
fn encode_ver2_none() {
    let frame = Frame {
        header: Header {
            frame_type: FrameType::MacCommand,
            security: false,
            frame_pending: false,
            ack_request: true,
            pan_id_compress: false,
            version: FrameVersion::Ieee802154,
            destination: None,
            source: Some(Address::Short(PanId(0x1234), ShortAddress(0x9abc))),
            seq: 0xff,
            auxiliary_security_header: None,
        },
        content: FrameContent::Command(command::Command::DataRequest),
        payload: &[],
        footer: [0x00, 0x00],
    };
    let mut buf: Vec<u8> = Vec::new();
    let len = frame.try_write(&mut buf, FooterMode::Omitted);
    assert_eq!(len, 8);
    assert_eq!(buf, [0x23, 0xa0, 0xff, 0x34, 0x12, 0xbc, 0x9a, 0x04]);
}

#[test]
fn round_trip_secured_data_frame() {
    let frame = Frame {
        header: Header {
            frame_type: FrameType::Data,
            security: true,
            frame_pending: false,
            ack_request: true,
            pan_id_compress: false,
            version: FrameVersion::Ieee802154_2006,
            destination: Some(Address::Short(PanId(0x00aa), ShortAddress(0x1111))),
            source: Some(Address::Extended(
                PanId(0x00bb),
                ExtendedAddress(0x0102030405060708),
            )),
            seq: 7,
            auxiliary_security_header: Some(AuxiliarySecurityHeader {
                security_level: SecurityLevel::ENCMIC64,
                key_identifier: Some(KeyIdentifier {
                    key_source: Some(KeySource::Short(0xcafe0000)),
                    key_index: 3,
                }),
                frame_counter: Some(0x01020304),
            }),
        },
        content: FrameContent::Data,
        payload: &[1, 2, 3, 4, 5],
        footer: [0xaa, 0xbb],
    };
    let mut buf: Vec<u8> = Vec::new();
    let len = frame.try_write(&mut buf, FooterMode::Explicit);
    assert_eq!(len, buf.len());
    let (back, used) = Frame::try_read(&buf, FooterMode::Explicit).unwrap();
    assert_eq!(used, buf.len());
    assert_eq!(back.header, frame.header);
    assert_eq!(back.content, frame.content);
    assert_eq!(back.payload, frame.payload);
    assert_eq!(back.footer, frame.footer);
}

#[test]
fn round_trip_beacon_with_footer() {
    let frame = Frame {
        header: Header {
            frame_type: FrameType::Beacon,
            security: false,
            frame_pending: false,
            ack_request: false,
            pan_id_compress: false,
            version: FrameVersion::Ieee802154_2003,
            destination: None,
            source: Some(Address::Short(PanId(0x77aa), ShortAddress(0x0001))),
            seq: 200,
            auxiliary_security_header: None,
        },
        content: FrameContent::Beacon(beacon::Beacon {
            superframe_spec: beacon::SuperframeSpecification {
                beacon_order: beacon::BeaconOrder::BeaconOrder(9),
                superframe_order: beacon::SuperframeOrder::SuperframeOrder(4),
                final_cap_slot: 11,
                battery_life_extension: true,
                pan_coordinator: true,
                association_permit: false,
            },
            guaranteed_time_slot_info: beacon::GuaranteedTimeSlotInformation { permit: true },
            pending_address: beacon::PendingAddress::new(),
        }),
        payload: &[9, 8, 7],
        footer: [0x12, 0x34],
    };
    let mut buf: Vec<u8> = Vec::new();
    frame.try_write(&mut buf, FooterMode::Explicit);
    let (back, _) = Frame::try_read(&buf, FooterMode::Explicit).unwrap();
    assert_eq!(back.header, frame.header);
    assert_eq!(back.content, frame.content);
    assert_eq!(back.payload, frame.payload);
    assert_eq!(back.footer, frame.footer);
}

#[test]
fn pan_compression_saves_exactly_two_bytes() {
    let compressed = Header {
        frame_type: FrameType::Data,
        security: false,
        frame_pending: false,
        ack_request: false,
        pan_id_compress: true,
        version: FrameVersion::Ieee802154_2003,
        destination: Some(Address::Short(PanId(0x3344), ShortAddress(0x0005))),
        source: Some(Address::Short(PanId(0x3344), ShortAddress(0x0006))),
        seq: 1,
        auxiliary_security_header: None,
    };
    let plain = Header {
        pan_id_compress: false,
        ..compressed
    };
    let mut short_buf: Vec<u8> = Vec::new();
    let mut long_buf: Vec<u8> = Vec::new();
    let short_len = compressed.try_write(&mut short_buf);
    let long_len = plain.try_write(&mut long_buf);
    assert_eq!(short_len + 2, long_len);
    // Decoding the compressed form reconstructs the shared PAN identifier.
    let (back, _) = Header::try_read(&short_buf, 0).unwrap();
    assert_eq!(
        back.source,
        Some(Address::Short(PanId(0x3344), ShortAddress(0x0006)))
    );
}

#[test]
fn reserved_address_mode_is_rejected_regardless_of_other_fields() {
    // Destination mode 1, with an otherwise absurd control word.
    let with_dst_mode_one = [0x07, 0x74, 0x00, 0x00, 0x00, 0x00];
    assert_eq!(
        Frame::try_read(&with_dst_mode_one, FooterMode::Omitted),
        Err(DecodeError::InvalidAddressMode(1))
    );
    // Source mode 1 on a plain data frame.
    let with_src_mode_one = [0x01, 0x48, 0x00, 0x00, 0x00, 0x00];
    assert_eq!(
        Frame::try_read(&with_src_mode_one, FooterMode::Omitted),
        Err(DecodeError::InvalidAddressMode(1))
    );
}

#[test]
fn invalid_frame_type_is_rejected() {
    // Type bits 0b100: no such frame type.
    let data = [0x04, 0x00, 0x00];
    assert_eq!(
        Frame::try_read(&data, FooterMode::Omitted),
        Err(DecodeError::InvalidFrameType(4))
    );
}

#[test]
fn invalid_frame_version_is_rejected() {
    // Version bits 0b11: reserved.
    let data = [0x01, 0x30, 0x00];
    assert_eq!(
        Frame::try_read(&data, FooterMode::Omitted),
        Err(DecodeError::InvalidFrameVersion(3))
    );
}

#[test]
fn short_buffer_is_rejected() {
    let data = [0x01];
    assert_eq!(
        Frame::try_read(&data, FooterMode::Omitted),
        Err(DecodeError::NotEnoughBytes)
    );
    // A data frame announcing a short destination address but cut off.
    let cut = [0x01, 0x08, 0x01, 0x34];
    assert_eq!(
        Frame::try_read(&cut, FooterMode::Omitted),
        Err(DecodeError::NotEnoughBytes)
    );
}

#[test]
fn unknown_command_is_rejected() {
    // A MAC command frame whose identifier byte is unassigned here.
    let data = [0x03, 0x00, 0x01, 0x99];
    assert_eq!(
        Frame::try_read(&data, FooterMode::Omitted),
        Err(DecodeError::InvalidValue)
    );
}

#[test]
fn footer_modes_differ_only_in_the_last_two_bytes() {
    let frame = Frame {
        header: Header {
            frame_type: FrameType::Data,
            security: false,
            frame_pending: false,
            ack_request: false,
            pan_id_compress: false,
            version: FrameVersion::Ieee802154_2003,
            destination: Some(Address::Short(PanId(0x1234), ShortAddress(0x5678))),
            source: None,
            seq: 0,
            auxiliary_security_header: None,
        },
        content: FrameContent::Data,
        payload: &[0xde],
        footer: [0xbe, 0xef],
    };
    let mut without: Vec<u8> = Vec::new();
    let mut with: Vec<u8> = Vec::new();
    frame.try_write(&mut without, FooterMode::Omitted);
    frame.try_write(&mut with, FooterMode::Explicit);
    assert_eq!(with.len(), without.len() + 2);
    assert_eq!(&with[..without.len()], &without[..]);
    assert_eq!(&with[without.len()..], &[0xbe, 0xef]);
    // Explicit decoding hands the trailing bytes back as the footer.
    let (back, _) = Frame::try_read(&with, FooterMode::Explicit).unwrap();
    assert_eq!(back.footer, [0xbe, 0xef]);
    assert_eq!(back.payload, &[0xde]);
}

#[test]
fn aux_header_counter_suppression_round_trips_only_in_2015_frames() {
    let frame = Frame {
        header: Header {
            frame_type: FrameType::Data,
            security: true,
            frame_pending: false,
            ack_request: false,
            pan_id_compress: false,
            version: FrameVersion::Ieee802154,
            destination: Some(Address::Short(PanId(1), ShortAddress(2))),
            source: None,
            seq: 3,
            auxiliary_security_header: Some(AuxiliarySecurityHeader {
                security_level: SecurityLevel::MIC32,
                key_identifier: Some(KeyIdentifier {
                    key_source: None,
                    key_index: 9,
                }),
                frame_counter: None,
            }),
        },
        content: FrameContent::Data,
        payload: &[],
        footer: [0, 0],
    };
    let mut buf: Vec<u8> = Vec::new();
    frame.try_write(&mut buf, FooterMode::Omitted);
    let (back, _) = Frame::try_read(&buf, FooterMode::Omitted).unwrap();
    assert_eq!(back.header.auxiliary_security_header, frame.header.auxiliary_security_header);
}

#[test]
fn beacon_lists_are_not_modelled() {
    // A beacon announcing one guaranteed-time-slot descriptor.
    let with_gts = [0x00, 0x00, 0x01, 0xff, 0x0f, 0x01, 0x00];
    assert_eq!(
        Frame::try_read(&with_gts, FooterMode::Omitted),
        Err(DecodeError::InvalidValue)
    );
    // A beacon announcing one pending short address.
    let with_pending = [0x00, 0x00, 0x01, 0xff, 0x0f, 0x00, 0x01];
    assert_eq!(
        Frame::try_read(&with_pending, FooterMode::Omitted),
        Err(DecodeError::InvalidValue)
    );
}
