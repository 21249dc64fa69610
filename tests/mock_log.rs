use firm_core::constants::{
    FIRMMockPacketType, HEADER_CAL_SIZE, HEADER_COMM_SIZE, HEADER_DEVICE_NAME_LEN,
    HEADER_NUM_SCALE_FACTORS, HEADER_PADDING_SIZE, HEADER_SIZE_TEXT, HEADER_TOTAL_SIZE,
    HEADER_UID_SIZE, ICM45686_ID, ICM45686_SIZE, MMC5983MA_ID, TICKS_PER_SECOND, BMP581_ID,
};
use firm_core::client_packets::FIRMMockPacket;
use firm_core::firm_packets::{FIRMDataPacket, PAYLOAD_LENGTH};
use firm_core::framed_packet::FrameError;
use firm_core::mock::{decode_baro, decode_imu, decode_mag, LogScaleFactors, MockParser, MockSample};

fn scaled(s: &MockSample, sf: LogScaleFactors) -> FIRMDataPacket {
    let f = |bits: u32| f32::from_bits(bits);
    FIRMDataPacket {
        timestamp_bits: (s.elapsed_ticks as f64 / TICKS_PER_SECOND as f64).to_bits(),
        temperature_bits: (s.baro.temperature as f32 / f(sf.bmp_temp_bits)).to_bits(),
        pressure_bits: (s.baro.pressure as f32 / f(sf.bmp_pressure_bits)).to_bits(),
        accel_x_bits: (s.imu.accel_x as f32 / f(sf.icm_accel_bits)).to_bits(),
        accel_y_bits: (s.imu.accel_y as f32 / f(sf.icm_accel_bits)).to_bits(),
        accel_z_bits: (s.imu.accel_z as f32 / f(sf.icm_accel_bits)).to_bits(),
        gyro_x_bits: (s.imu.gyro_x as f32 / f(sf.icm_gyro_bits)).to_bits(),
        gyro_y_bits: (s.imu.gyro_y as f32 / f(sf.icm_gyro_bits)).to_bits(),
        gyro_z_bits: (s.imu.gyro_z as f32 / f(sf.icm_gyro_bits)).to_bits(),
        mag_x_bits: ((s.mag.x as f32 - 131072.0) / f(sf.mmc_mag_bits)).to_bits(),
        mag_y_bits: ((s.mag.y as f32 - 131072.0) / f(sf.mmc_mag_bits)).to_bits(),
        mag_z_bits: ((s.mag.z as f32 - 131072.0) / f(sf.mmc_mag_bits)).to_bits(),
    }
}

fn le_f32_bytes(v: f32) -> [u8; 4] {
    v.to_le_bytes()
}

fn header_with_scale(sf: [f32; 5]) -> Vec<u8> {
    let mut header = Vec::new();
    header.extend_from_slice(&[0u8; HEADER_SIZE_TEXT]);
    header.extend_from_slice(&[0u8; HEADER_UID_SIZE]);
    header.extend_from_slice(&[0u8; HEADER_DEVICE_NAME_LEN]);
    header.extend_from_slice(&[0u8; HEADER_COMM_SIZE]);
    header.extend_from_slice(&[0u8; HEADER_PADDING_SIZE]);
    header.extend_from_slice(&[0u8; HEADER_CAL_SIZE]);
    for v in sf {
        header.extend_from_slice(&le_f32_bytes(v));
    }
    header
}

fn icm_record(tick: u32) -> Vec<u8> {
    let mut record = vec![ICM45686_ID];
    record.extend_from_slice(&tick.to_be_bytes()[1..]);
    record.extend_from_slice(&[0u8; ICM45686_SIZE]);
    record
}

#[test]
fn parses_header_and_emits_packet_on_icm_record() {
    let mut header = Vec::new();
    header.extend_from_slice(&[0u8; HEADER_SIZE_TEXT]);
    header.extend_from_slice(&[0u8; HEADER_UID_SIZE]);
    header.extend_from_slice(&[0u8; HEADER_DEVICE_NAME_LEN]);
    header.extend_from_slice(&[0u8; HEADER_COMM_SIZE]);
    header.extend_from_slice(&[0u8; HEADER_PADDING_SIZE]);
    header.extend_from_slice(&[0u8; HEADER_CAL_SIZE]);
    for _ in 0..HEADER_NUM_SCALE_FACTORS {
        header.extend_from_slice(&le_f32_bytes(1.0));
    }
    assert_eq!(header.len(), HEADER_TOTAL_SIZE);

    let mut record = Vec::new();
    record.push(ICM45686_ID);
    record.extend_from_slice(&[0x00, 0x00, 0x01]);
    record.extend_from_slice(&[0u8; ICM45686_SIZE]);

    let mut parser = MockParser::new();
    parser.read_header(&header).unwrap();
    parser.parse_bytes(&record);

    let (sample, delay) = parser.get_packet_with_delay().unwrap();
    assert_eq!(delay, 0);
    let pkt = FIRMMockPacket::telemetry(&scaled(&sample, parser.scale_factors()));
    assert_eq!(pkt.len() as usize, PAYLOAD_LENGTH);
    assert_eq!(pkt.payload().len(), PAYLOAD_LENGTH);
}

#[test]
fn tick_difference_gives_delay() {
    let mut parser = MockParser::new();
    parser.read_header(&header_with_scale([1.0; 5])).unwrap();
    let mut bytes = icm_record(1000);
    bytes.extend_from_slice(&icm_record(1168));
    parser.parse_bytes(&bytes);
    let (_, first) = parser.get_packet_with_delay().unwrap();
    let (_, second) = parser.get_packet_with_delay().unwrap();
    assert_eq!(first, 0);
    assert_eq!(second, 168);
    assert_eq!(second as f64 / TICKS_PER_SECOND as f64, 168.0 / 168_000_000.0);
}

#[test]
fn tick_counter_wraps() {
    let mut parser = MockParser::new();
    parser.read_header(&header_with_scale([1.0; 5])).unwrap();
    let mut bytes = icm_record(0xFF_FFF0);
    bytes.extend_from_slice(&icm_record(0x10));
    parser.parse_bytes(&bytes);
    let first = parser.get_packet().unwrap();
    assert_eq!(first.elapsed_ticks, 0xFF_FFF0);
    let (second, delay) = parser.get_packet_with_delay().unwrap();
    assert_eq!(delay, 0x20);
    assert_eq!(second.elapsed_ticks, 0x100_0010);
}

#[test]
fn partial_records_wait_and_padding_and_noise_are_skipped() {
    let mut parser = MockParser::new();
    parser.read_header(&header_with_scale([2.0; 5])).unwrap();
    let mut bytes = vec![0u8, 0, 0x17];
    let mut mag = vec![MMC5983MA_ID, 0, 0, 9];
    mag.extend_from_slice(&[1, 2, 3, 4, 5, 6, 0b1110_0100]);
    bytes.extend_from_slice(&mag);
    bytes.extend_from_slice(&[BMP581_ID, 0, 0, 10, 1, 2, 3, 4, 5, 6]);
    bytes.extend_from_slice(&icm_record(14));
    let (a, b) = bytes.split_at(20);
    parser.parse_bytes(a);
    assert!(parser.get_packet().is_none());
    parser.parse_bytes(b);
    let (sample, delay) = parser.get_packet_with_delay().unwrap();
    assert_eq!(delay, 0);
    assert_eq!(sample.elapsed_ticks, 14);
    assert_eq!(sample.mag.x, 1 << 10 | 2 << 2 | 0b11);
    assert_eq!(sample.baro.temperature, 0x030201);
    assert_eq!(sample.baro.pressure, 0x060504);
    assert_eq!(sample.imu.accel_x, 0);
    assert!(parser.get_packet().is_none());
    assert_eq!(f32::from_bits(parser.scale_factors().mmc_mag_bits), 2.0);
}

#[test]
fn only_imu_records_yield_samples() {
    let mut parser = MockParser::new();
    parser.read_header(&header_with_scale([1.0; 5])).unwrap();
    parser.parse_bytes(&[BMP581_ID, 0, 0, 1, 1, 2, 3, 4, 5, 6]);
    parser.parse_bytes(&[MMC5983MA_ID, 0, 0, 2, 1, 2, 3, 4, 5, 6, 7]);
    assert!(parser.get_packet().is_none());
}

#[test]
fn records_before_the_header_are_ignored() {
    let mut parser = MockParser::new();
    parser.parse_bytes(&icm_record(3));
    assert!(parser.get_packet().is_none());
    assert!(!parser.header_parsed());
    assert_eq!(
        parser.read_header(&[0u8; 10]),
        Err(FrameError::LengthMismatch { expected: HEADER_TOTAL_SIZE, got: 10 })
    );
}

#[test]
fn sensor_payloads_unpack() {
    let mut imu = [0u8; 15];
    imu[0] = 0x80;
    imu[12] = 0x3A;
    imu[6] = 0x01;
    imu[7] = 0x02;
    let counts = decode_imu(&imu).unwrap();
    assert_eq!(counts.accel_x, (0x80 << 12 | 0x3) - (1 << 20));
    assert_eq!(counts.gyro_x, 0x01 << 12 | 0x02 << 4 | 0xA);
    assert_eq!(counts.accel_y, 0);
    assert!(decode_imu(&imu[..14]).is_none());

    let mag = decode_mag(&[1, 2, 3, 4, 5, 6, 0b1110_0100]).unwrap();
    assert_eq!(mag.x, 1 << 10 | 2 << 2 | 0b11);
    assert_eq!(mag.y, 3 << 10 | 4 << 2 | 0b10);
    assert_eq!(mag.z, 5 << 10 | 6 << 2 | 0b01);

    let baro = decode_baro(&[1, 2, 3, 4, 5, 6]).unwrap();
    assert_eq!(baro.temperature, 0x030201);
    assert_eq!(baro.pressure, 0x060504);
    assert_eq!(BMP581_ID, b'B');
}
