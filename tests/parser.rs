use firm_core::client_packets::FIRMCommandPacket;
use firm_core::constants::PacketHeader;
use firm_core::data_parser::SerialParser;
use firm_core::firm_packets::{DeviceProtocol, FIRMDataPacket, FIRMResponsePacket};
use firm_core::framed_packet::FramedPacket;

fn telemetry_payload(timestamp: f64, temperature: f32) -> Vec<u8> {
    let mut p = Vec::new();
    p.extend_from_slice(&temperature.to_le_bytes());
    p.extend_from_slice(&101325.0f32.to_le_bytes());
    for v in [1.0f32, -0.5, 0.25, 0.1, 0.2, 0.3, 40.0, -12.5, 3.0] {
        p.extend_from_slice(&v.to_le_bytes());
    }
    p.extend_from_slice(&[0u8; 4]);
    p.extend_from_slice(&timestamp.to_le_bytes());
    p.resize(120, 0);
    p
}

fn data_frame(payload: &[u8]) -> Vec<u8> {
    FramedPacket::new(PacketHeader::Data, 0, payload).unwrap().to_bytes()
}

fn response_frame(payload: &[u8]) -> Vec<u8> {
    FramedPacket::new(PacketHeader::Response, 0, payload).unwrap().to_bytes()
}

fn drain(parser: &mut SerialParser) -> Vec<Vec<u8>> {
    let mut out = Vec::new();
    while let Some(p) = parser.get_packet() {
        out.push(p.payload().to_vec());
    }
    out
}

#[test]
fn whole_frame_yields_one_packet() {
    let payload = telemetry_payload(1.5, 20.0);
    let mut parser = SerialParser::new();
    parser.parse_bytes(&data_frame(&payload));
    assert_eq!(drain(&mut parser), vec![payload]);
}

#[test]
fn split_at_every_boundary_matches_whole() {
    let payload = telemetry_payload(3.25, 21.0);
    let bytes = data_frame(&payload);
    for k in 0..=bytes.len() {
        let mut parser = SerialParser::new();
        parser.parse_bytes(&bytes[..k]);
        if k < bytes.len() {
            assert!(parser.get_packet().is_none());
        }
        parser.parse_bytes(&bytes[k..]);
        let got = drain(&mut parser);
        if k < bytes.len() {
            assert_eq!(got, vec![payload.clone()], "split at {}", k);
        }
    }
    let mut parser = SerialParser::new();
    for b in bytes.iter() {
        parser.parse_bytes(&[*b]);
    }
    assert_eq!(drain(&mut parser), vec![payload]);
}

#[test]
fn noise_before_a_frame_is_consumed() {
    let payload = telemetry_payload(9.0, 19.5);
    for n in [0usize, 1, 7, 100, 255] {
        let mut bytes: Vec<u8> = (0..n).map(|i| (i % 7) as u8 + 1).collect();
        bytes.extend_from_slice(&data_frame(&payload));
        let mut parser = SerialParser::new();
        parser.parse_bytes(&bytes);
        assert_eq!(drain(&mut parser), vec![payload.clone()]);
        parser.parse_bytes(&[]);
        assert!(parser.get_packet().is_none());
    }
}

#[test]
fn corrupted_crc_is_dropped_and_next_frame_found() {
    let first = telemetry_payload(1.0, 1.0);
    let second = telemetry_payload(2.0, 2.0);
    let mut bad = data_frame(&first);
    let n = bad.len();
    bad[n - 1] ^= 0x5A;
    let mut parser = SerialParser::new();
    parser.parse_bytes(&bad);
    parser.parse_bytes(&data_frame(&second));
    assert_eq!(drain(&mut parser), vec![second]);
}

#[test]
fn declared_length_not_yet_buffered_waits() {
    let payload = telemetry_payload(5.0, 5.0);
    let mut bytes = Vec::new();
    bytes.extend_from_slice(&0xA55Au16.to_le_bytes());
    bytes.extend_from_slice(&0u16.to_le_bytes());
    bytes.extend_from_slice(&1000u32.to_le_bytes());
    bytes.extend_from_slice(&[7, 7]);
    let mut parser = SerialParser::new();
    parser.parse_bytes(&bytes);
    assert!(parser.get_packet().is_none());
    // Once the declared 1000 bytes are there and fail their check, the
    // scan moves on and finds the frame inside them.
    let mut rest = data_frame(&payload);
    rest.resize(1000, 9);
    parser.parse_bytes(&rest);
    assert_eq!(drain(&mut parser), vec![payload]);
}

#[test]
fn exact_telemetry_example() {
    let mut bytes = [0u8; 56];
    bytes[0..4].copy_from_slice(&25.0f32.to_le_bytes());
    bytes[48..56].copy_from_slice(&42.0f64.to_le_bytes());
    let sample = FIRMDataPacket::from_bytes(&bytes).unwrap();
    assert_eq!(f64::from_bits(sample.timestamp_bits), 42.0);
    assert_eq!(f32::from_bits(sample.temperature_bits), 25.0);
    assert_eq!(sample.pressure_bits, 0);
    assert!(FIRMDataPacket::from_bytes(&bytes[..55]).is_none());
}

#[test]
fn telemetry_sample_decodes_timestamp_and_temperature() {
    let payload = telemetry_payload(42.0, 25.0);
    let mut parser = SerialParser::new();
    parser.parse_bytes(&data_frame(&payload));
    let frame = parser.get_packet().unwrap();
    let sample = FIRMDataPacket::from_bytes(frame.payload()).unwrap();
    assert_eq!(f64::from_bits(sample.timestamp_bits), 42.0);
    assert_eq!(f32::from_bits(sample.temperature_bits), 25.0);
    assert_eq!(f32::from_bits(sample.pressure_bits), 101325.0);
    assert_eq!(f32::from_bits(sample.accel_x_bits), 1.0);
    assert_eq!(f32::from_bits(sample.mag_z_bits), 3.0);
    assert!(FIRMDataPacket::from_bytes(&payload[..55]).is_none());
}

#[test]
fn responses_are_queued_and_decoded() {
    let mut info = vec![0x01u8];
    info.extend_from_slice(&0x1122_3344_5566_7788u64.to_le_bytes());
    info.extend_from_slice(b"v1.2.3\0\0");
    let mut config = vec![0x02u8];
    let mut name = b"FIRM".to_vec();
    name.resize(32, 0);
    config.extend_from_slice(&name);
    config.extend_from_slice(&50u16.to_le_bytes());
    config.push(0x02);

    let mut bytes = response_frame(&info);
    bytes.extend_from_slice(&response_frame(&config));
    bytes.extend_from_slice(&response_frame(&[0x03, 0x01]));
    bytes.extend_from_slice(&response_frame(&[0xFF, 0x00]));
    bytes.extend_from_slice(&response_frame(&[0x77]));
    bytes.extend_from_slice(&FIRMCommandPacket::reboot().to_bytes());

    let mut parser = SerialParser::new();
    parser.parse_bytes(&bytes);
    assert!(parser.get_packet().is_none());

    match parser.get_response().unwrap() {
        FIRMResponsePacket::GetDeviceInfo(i) => {
            assert_eq!(i.id, 0x1122_3344_5566_7788);
            assert_eq!(i.firmware_version, "v1.2.3");
        }
        other => panic!("unexpected {:?}", other),
    }
    match parser.get_response().unwrap() {
        FIRMResponsePacket::GetDeviceConfig(c) => {
            assert_eq!(c.name, "FIRM");
            assert_eq!(c.frequency, 50);
            assert_eq!(c.protocol, DeviceProtocol::UART);
        }
        other => panic!("unexpected {:?}", other),
    }
    assert_eq!(parser.get_response(), Some(FIRMResponsePacket::SetDeviceConfig(true)));
    assert_eq!(parser.get_response(), Some(FIRMResponsePacket::Cancel(false)));
    assert_eq!(
        parser.get_response(),
        Some(FIRMResponsePacket::Error("Unknown response marker".to_string()))
    );
    assert!(parser.get_response().is_none());
}

#[test]
fn short_response_payload_is_an_error() {
    assert!(matches!(FIRMResponsePacket::from_bytes(&[]), FIRMResponsePacket::Error(_)));
    assert!(matches!(FIRMResponsePacket::from_bytes(&[0x01, 2, 3]), FIRMResponsePacket::Error(_)));
    assert!(matches!(FIRMResponsePacket::from_bytes(&[0x03]), FIRMResponsePacket::Error(_)));
}

#[test]
fn invalid_utf8_name_still_decodes() {
    let mut config = vec![0x02u8, 0xFF, b'A'];
    config.resize(33, 0);
    config.extend_from_slice(&7u16.to_le_bytes());
    config.push(0x09);
    match FIRMResponsePacket::from_bytes(&config) {
        FIRMResponsePacket::GetDeviceConfig(c) => {
            assert_eq!(c.name, "\u{FFFD}A");
            assert_eq!(c.protocol, DeviceProtocol::USB);
            assert_eq!(c.frequency, 7);
        }
        other => panic!("unexpected {:?}", other),
    }
}

#[test]
fn telemetry_payload_round_trips() {
    let sample = FIRMDataPacket {
        timestamp_bits: 42.5f64.to_bits(),
        temperature_bits: 25.0f32.to_bits(),
        pressure_bits: 1.0f32.to_bits(),
        accel_x_bits: 2.0f32.to_bits(),
        accel_y_bits: 3.0f32.to_bits(),
        accel_z_bits: 4.0f32.to_bits(),
        gyro_x_bits: 5.0f32.to_bits(),
        gyro_y_bits: 6.0f32.to_bits(),
        gyro_z_bits: 7.0f32.to_bits(),
        mag_x_bits: 8.0f32.to_bits(),
        mag_y_bits: 9.0f32.to_bits(),
        mag_z_bits: 10.0f32.to_bits(),
    };
    let bytes = sample.to_bytes();
    assert_eq!(bytes.len(), 120);
    assert_eq!(&bytes[0..4], &25.0f32.to_le_bytes());
    assert_eq!(&bytes[48..56], &42.5f64.to_le_bytes());
    assert!(bytes[44..48].iter().all(|b| *b == 0));
    assert!(bytes[56..].iter().all(|b| *b == 0));
    assert_eq!(FIRMDataPacket::from_bytes(&bytes), Some(sample));
}

#[test]
fn any_chunking_matches_feeding_whole() {
    let mut stream = vec![3u8, 0xA5, 9];
    stream.extend_from_slice(&data_frame(&telemetry_payload(1.0, 1.0)));
    stream.extend_from_slice(&response_frame(&[0x03, 0x01]));
    stream.extend_from_slice(&[0x5A, 0xA5, 0, 0, 40, 0, 0, 0]);
    stream.extend_from_slice(&data_frame(&telemetry_payload(2.0, 2.0)));
    let mut whole = SerialParser::new();
    whole.parse_bytes(&stream);
    let expected = drain(&mut whole);
    for size in 1..=stream.len() {
        let mut parser = SerialParser::new();
        for chunk in stream.chunks(size) {
            parser.parse_bytes(chunk);
            parser.parse_bytes(&[]);
        }
        assert_eq!(drain(&mut parser), expected, "chunk size {}", size);
        assert_eq!(parser.get_response(), Some(FIRMResponsePacket::SetDeviceConfig(true)));
    }
}
