use firm_core::client_packets::{FIRMCommandPacket, FIRMMockPacket};
use firm_core::constants::{
    FIRMCommand, FIRMMockPacketType, PacketHeader, CRC_LENGTH, DEVICE_NAME_LENGTH, FREQUENCY_LENGTH,
};
use firm_core::crc::crc16_ccitt;
use firm_core::firm_packets::{DeviceConfig, DeviceProtocol};
use firm_core::framed_packet::{FrameError, FramedPacket};
use firm_core::utils::str_to_bytes;

fn crc_from_bytes(bytes: &[u8]) -> u16 {
    u16::from_le_bytes(bytes[bytes.len() - CRC_LENGTH..].try_into().unwrap())
}

fn calculate_crc(bytes: &[u8]) -> u16 {
    crc16_ccitt(&bytes[..bytes.len() - CRC_LENGTH])
}

fn assert_common_packet_invariants(bytes: &[u8], expected_class: u16) {
    assert_eq!(&bytes[0..2], &expected_class.to_le_bytes());
    assert_eq!(crc_from_bytes(bytes), calculate_crc(bytes));
}

fn command_class() -> u16 {
    PacketHeader::Command.as_u16()
}

#[test]
fn test_firm_command_packet_to_bytes_get_device_info() {
    let command_packet = FIRMCommandPacket::get_device_info().to_bytes();
    assert_common_packet_invariants(&command_packet, command_class());
    assert_eq!(u16::from_le_bytes(command_packet[2..4].try_into().unwrap()), FIRMCommand::GetDeviceInfo.marker());
    assert_eq!(u32::from_le_bytes(command_packet[4..8].try_into().unwrap()), 0);
    assert_eq!(command_packet.len(), 2 + 2 + 4 + 0 + 2);
}

#[test]
fn test_firm_command_packet_to_bytes_get_device_config() {
    let command_packet = FIRMCommandPacket::get_device_config().to_bytes();
    assert_common_packet_invariants(&command_packet, command_class());
    assert_eq!(u16::from_le_bytes(command_packet[2..4].try_into().unwrap()), FIRMCommand::GetDeviceConfig.marker());
    assert_eq!(u32::from_le_bytes(command_packet[4..8].try_into().unwrap()), 0);
    assert_eq!(command_packet.len(), 2 + 2 + 4 + 0 + 2);
}

#[test]
fn test_firm_command_packet_to_bytes_cancel() {
    let command_packet = FIRMCommandPacket::cancel().to_bytes();
    assert_common_packet_invariants(&command_packet, command_class());
    assert_eq!(u16::from_le_bytes(command_packet[2..4].try_into().unwrap()), FIRMCommand::Cancel.marker());
    assert_eq!(u32::from_le_bytes(command_packet[4..8].try_into().unwrap()), 0);
    assert_eq!(command_packet.len(), 2 + 2 + 4 + 0 + 2);
}

#[test]
fn test_firm_command_packet_to_bytes_reboot() {
    let command_packet = FIRMCommandPacket::reboot().to_bytes();
    assert_common_packet_invariants(&command_packet, command_class());
    assert_eq!(u16::from_le_bytes(command_packet[2..4].try_into().unwrap()), FIRMCommand::Reboot.marker());
    assert_eq!(u32::from_le_bytes(command_packet[4..8].try_into().unwrap()), 0);
    assert_eq!(command_packet.len(), 2 + 2 + 4 + 0 + 2);
}

#[test]
fn test_firm_command_packet_to_bytes_mock() {
    let command_packet = FIRMCommandPacket::mock().to_bytes();
    assert_common_packet_invariants(&command_packet, command_class());
    assert_eq!(u16::from_le_bytes(command_packet[2..4].try_into().unwrap()), FIRMCommand::Mock.marker());
    assert_eq!(u32::from_le_bytes(command_packet[4..8].try_into().unwrap()), 0);
    assert_eq!(command_packet.len(), 2 + 2 + 4 + 0 + 2);
}

#[test]
fn test_firm_command_packet_to_bytes_set_device_config() {
    let config = DeviceConfig {
        name: "FIRM".to_string(),
        frequency: 50,
        protocol: DeviceProtocol::UART,
    };

    let command_packet = FIRMCommandPacket::set_device_config(config.clone()).to_bytes();
    assert_common_packet_invariants(&command_packet, command_class());

    assert_eq!(
        u16::from_le_bytes(command_packet[2..4].try_into().unwrap()),
        FIRMCommand::SetDeviceConfig.marker()
    );

    let payload_len = u32::from_le_bytes(command_packet[4..8].try_into().unwrap()) as usize;
    assert_eq!(payload_len, DEVICE_NAME_LENGTH + FREQUENCY_LENGTH + 1);
    assert_eq!(command_packet.len(), 2 + 2 + 4 + payload_len + 2);

    let payload_start = 8;
    let name_start = payload_start;
    let name_end = name_start + DEVICE_NAME_LENGTH;
    let freq_start = name_end;
    let freq_end = freq_start + FREQUENCY_LENGTH;
    let protocol_idx = freq_end;

    let expected_name_bytes = str_to_bytes(&config.name, DEVICE_NAME_LENGTH);
    assert_eq!(&command_packet[name_start..name_end], expected_name_bytes.as_slice());

    let freq = u16::from_le_bytes(command_packet[freq_start..freq_end].try_into().unwrap());
    assert_eq!(freq, config.frequency);

    assert_eq!(command_packet[protocol_idx], 0x02);
}

#[test]
fn test_firm_mock_packet_new() {
    let payload = vec![1u8, 2, 3];
    let packet = FIRMMockPacket::new(FIRMMockPacketType::B, payload.clone());
    assert_eq!(packet.header(), PacketHeader::MockSensor);
    assert_eq!(packet.packet_type(), FIRMMockPacketType::B);
    assert_eq!(packet.len(), payload.len() as u32);
    assert_eq!(packet.payload(), payload.as_slice());
}

#[test]
fn test_firm_mock_packet_to_bytes() {
    let payload: Vec<u8> = vec![0x10, 0x20, 0x30, 0x40, 0x50];
    let packet = FIRMMockPacket::new(FIRMMockPacketType::I, payload);
    let bytes = packet.to_bytes();
    assert_eq!(&bytes[0..2], &PacketHeader::MockSensor.as_u16().to_le_bytes());
    assert_eq!(bytes[2], b'I');
    assert_eq!(bytes[3], 0);
    assert_eq!(u32::from_le_bytes(bytes[4..8].try_into().unwrap()), packet.len());
    assert_eq!(u16::from_le_bytes(bytes[bytes.len() - 2..].try_into().unwrap()), packet.crc());
    assert_eq!(&bytes[8..bytes.len() - 2], packet.payload());
    assert_eq!(crc_from_bytes(&bytes), calculate_crc(&bytes));
}

#[test]
fn test_firm_mock_packet_roundtrip_from_bytes() {
    let payload = vec![9u8, 8, 7];
    let packet = FIRMMockPacket::new(FIRMMockPacketType::Header, payload);
    let bytes = packet.to_bytes();
    let parsed = FIRMMockPacket::from_bytes(&bytes).unwrap();
    assert_eq!(parsed.header(), PacketHeader::MockSensor);
    assert_eq!(parsed.packet_type(), FIRMMockPacketType::Header);
    assert_eq!(parsed.len() as usize, parsed.payload().len());
    assert_eq!(parsed.payload(), packet.payload());
    assert_eq!(parsed.crc(), packet.crc());
}

#[test]
fn framed_packet_roundtrip() {
    let header = PacketHeader::Data;
    let identifier = 0x0000u16;
    let payload = [1u8, 2, 3, 4, 5];
    let pkt = FramedPacket::new(header, identifier, &payload).unwrap();
    let bytes = pkt.to_bytes();

    let parsed = FramedPacket::from_bytes(&bytes).unwrap();
    assert_eq!(parsed.header(), header);
    assert_eq!(parsed.identifier(), identifier);
    assert_eq!(parsed.payload(), payload.as_slice());
    assert_eq!(parsed.crc(), pkt.crc());
}

#[test]
fn crc_matches_the_standard_check_value() {
    assert_eq!(crc16_ccitt(b"123456789"), 0x29B1);
    assert_eq!(crc16_ccitt(&[]), 0xFFFF);
}

#[test]
fn get_device_info_round_trips_with_empty_payload() {
    let bytes = FIRMCommandPacket::get_device_info().to_bytes();
    let parsed = FIRMCommandPacket::from_bytes(&bytes).unwrap();
    assert_eq!(parsed.command_type(), FIRMCommand::GetDeviceInfo);
    assert_eq!(parsed.header(), PacketHeader::Command);
    assert_eq!(parsed.len(), 0);
    let mut covered = Vec::new();
    covered.extend_from_slice(&0xB66Bu16.to_le_bytes());
    covered.extend_from_slice(&1u16.to_le_bytes());
    covered.extend_from_slice(&0u32.to_le_bytes());
    assert_eq!(parsed.crc(), crc16_ccitt(&covered));
    assert_eq!(bytes[0..8], covered[..]);
}

#[test]
fn every_command_round_trips() {
    let commands = [
        FIRMCommandPacket::get_device_info(),
        FIRMCommandPacket::get_device_config(),
        FIRMCommandPacket::cancel(),
        FIRMCommandPacket::reboot(),
        FIRMCommandPacket::mock(),
        FIRMCommandPacket::set_device_config(DeviceConfig {
            name: "rocket".to_string(),
            frequency: 400,
            protocol: DeviceProtocol::SPI,
        }),
    ];
    for c in commands.iter() {
        let parsed = FIRMCommandPacket::from_bytes(&c.to_bytes()).unwrap();
        assert_eq!(parsed.command_type(), c.command_type());
        assert_eq!(parsed.payload(), c.payload());
        assert_eq!(parsed.crc(), c.crc());
    }
}

#[test]
fn every_single_bit_flip_is_rejected() {
    let pkt = FramedPacket::new(PacketHeader::Response, 7, &[3u8, 1, 4, 1, 5, 9, 2, 6]).unwrap();
    let bytes = pkt.to_bytes();
    for i in 0..bytes.len() {
        for bit in 0..8 {
            let mut damaged = bytes.clone();
            damaged[i] ^= 1 << bit;
            assert!(FramedPacket::from_bytes(&damaged).is_err(), "byte {} bit {}", i, bit);
        }
    }
}

#[test]
fn decode_errors_name_their_cause() {
    assert_eq!(FramedPacket::from_bytes(&[0x5A, 0xA5, 0, 0]).err(), Some(FrameError::TooShort));
    let pkt = FramedPacket::new(PacketHeader::Data, 2, &[1, 2, 3]).unwrap();
    let bytes = pkt.to_bytes();

    let mut unknown = bytes.clone();
    unknown[0] = 0x00;
    assert_eq!(
        FramedPacket::from_bytes(&unknown).err(),
        Some(FrameError::UnknownIdentifier(0xA500))
    );

    let mut longer = bytes.clone();
    longer.push(0);
    assert_eq!(
        FramedPacket::from_bytes(&longer).err(),
        Some(FrameError::LengthMismatch { expected: 13, got: 14 })
    );

    let mut bad = bytes.clone();
    let n = bad.len();
    bad[n - 1] ^= 0xFF;
    let got = u16::from_le_bytes([bad[n - 2], bad[n - 1]]);
    assert_eq!(
        FramedPacket::from_bytes(&bad).err(),
        Some(FrameError::BadCrc { expected: pkt.crc(), got })
    );

    let big = vec![0u8; 300];
    assert_eq!(
        FramedPacket::new(PacketHeader::Data, 0, &big).err(),
        Some(FrameError::PayloadTooLarge)
    );

    let mut oversized = Vec::new();
    oversized.extend_from_slice(&0xA55Au16.to_le_bytes());
    oversized.extend_from_slice(&0u16.to_le_bytes());
    oversized.extend_from_slice(&300u32.to_le_bytes());
    oversized.extend_from_slice(&big);
    oversized.extend_from_slice(&[0, 0]);
    assert_eq!(FramedPacket::from_bytes(&oversized).err(), Some(FrameError::PayloadTooLarge));

    let frame = FramedPacket::new(PacketHeader::Command, 0x0042, &[]).unwrap();
    assert_eq!(
        FIRMCommandPacket::from_bytes(&frame.to_bytes()).err(),
        Some(FrameError::UnknownMarker(0x0042))
    );
    assert_eq!(
        FIRMCommandPacket::from_bytes(&bytes).err(),
        Some(FrameError::UnknownIdentifier(0xA55A))
    );
    assert_eq!(FIRMCommand::from_marker(0x0009), Err(FrameError::UnknownMarker(9)));
}

#[test]
fn class_and_kind_codes_round_trip() {
    for h in [PacketHeader::Data, PacketHeader::Response, PacketHeader::MockSensor, PacketHeader::Command] {
        assert_eq!(PacketHeader::from_u16(h.as_u16()), Some(h));
    }
    assert_eq!(PacketHeader::from_u16(0x1234), None);
    assert_eq!(PacketHeader::Data.as_u16(), 0xA55A);
    for t in [FIRMMockPacketType::Header, FIRMMockPacketType::B, FIRMMockPacketType::I, FIRMMockPacketType::M] {
        assert_eq!(FIRMMockPacketType::from_u16(t.as_u16()), Some(t));
        assert_eq!(FIRMMockPacketType::from_byte(t.as_byte()), Some(t));
    }
    assert_eq!(FIRMMockPacketType::from_u16(0x148), None);
    assert_eq!(FIRMMockPacketType::M.as_byte(), b'M');
    assert_eq!(FIRMCommand::Cancel.marker(), 0x00FF);
    assert_eq!(FIRMCommand::from_marker(0x0005), Ok(FIRMCommand::Mock));
}

#[test]
fn mock_from_bytes_refuses_other_classes() {
    let bytes = FIRMCommandPacket::reboot().to_bytes();
    assert!(FIRMMockPacket::from_bytes(&bytes).is_none());
    let frame = FramedPacket::new(PacketHeader::MockSensor, b'Z' as u16, &[1]).unwrap();
    assert!(FIRMMockPacket::from_bytes(&frame.to_bytes()).is_none());
}

#[test]
fn str_to_bytes_pads_and_cuts() {
    assert_eq!(str_to_bytes("ab", 4), vec![b'a', b'b', 0, 0]);
    assert_eq!(str_to_bytes("abcdef", 3), vec![b'a', b'b', b'c']);
}
