//! Typed payloads: device identity and configuration, command responses,
//! and the fixed layout of a telemetry sample.

use vstd::prelude::*;
use vstd::slice::slice_subrange;

use crate::bytes::{
    le16_at, le32_at, le64_at, lemma_le32_in, lemma_le64_in, push_le32, push_le64, read_le16,
    read_le32, read_le64, u32_le, u64_le,
};
use crate::constants::{
    CANCEL_MARKER, DEVICE_CONFIG_MARKER, DEVICE_ID_LENGTH, DEVICE_INFO_MARKER, DEVICE_NAME_LENGTH,
    FIRMWARE_VERSION_LENGTH, FREQUENCY_LENGTH, SET_DEVICE_CONFIG_MARKER,
};
use crate::utils::{bytes_to_str, field_text};

verus! {

/// Link over which the device talks to its host.
#[derive(Debug, Clone, Copy, PartialEq, Eq, Structural)]
pub enum DeviceProtocol {
    USB,
    UART,
    I2C,
    SPI,
}

/// The byte that stands for each protocol on the wire.
pub open spec fn protocol_byte(p: DeviceProtocol) -> u8 {
    match p {
        DeviceProtocol::USB => 1u8,
        DeviceProtocol::UART => 2u8,
        DeviceProtocol::I2C => 3u8,
        DeviceProtocol::SPI => 4u8,
    }
}

/// The protocol a byte stands for; an unknown byte reads as USB.
pub open spec fn protocol_of_byte(b: u8) -> DeviceProtocol {
    if b == 2 {
        DeviceProtocol::UART
    } else if b == 3 {
        DeviceProtocol::I2C
    } else if b == 4 {
        DeviceProtocol::SPI
    } else {
        DeviceProtocol::USB
    }
}

impl DeviceProtocol {
    pub fn as_byte(self) -> (r: u8)
        ensures
            r == protocol_byte(self),
    {
        match self {
            DeviceProtocol::USB => 1,
            DeviceProtocol::UART => 2,
            DeviceProtocol::I2C => 3,
            DeviceProtocol::SPI => 4,
        }
    }

    pub fn from_byte(b: u8) -> (r: DeviceProtocol)
        ensures
            r == protocol_of_byte(b),
    {
        if b == 2 {
            DeviceProtocol::UART
        } else if b == 3 {
            DeviceProtocol::I2C
        } else if b == 4 {
            DeviceProtocol::SPI
        } else {
            DeviceProtocol::USB
        }
    }
}

/// Identity of a device.
#[derive(Debug, Clone, PartialEq)]
pub struct DeviceInfo {
    pub firmware_version: String,
    pub id: u64,
}

/// Settings of a device.
#[derive(Debug, Clone, PartialEq)]
pub struct DeviceConfig {
    pub name: String,
    pub frequency: u16,
    pub protocol: DeviceProtocol,
}

/// A device's answer to a command.
#[derive(Debug, Clone, PartialEq)]
pub enum FIRMResponsePacket {
    GetDeviceInfo(DeviceInfo),
    GetDeviceConfig(DeviceConfig),
    SetDeviceConfig(bool),
    Cancel(bool),
    Error(String),
}

/// Payload bytes of an identity answer: marker, id, firmware version.
pub const DEVICE_INFO_RESPONSE_SIZE: usize = 17;

/// Payload bytes of a configuration answer: marker, name, frequency, protocol.
pub const DEVICE_CONFIG_RESPONSE_SIZE: usize = 36;

/// Payload bytes of an acknowledgement: marker, status.
pub const ACK_RESPONSE_SIZE: usize = 2;

pub open spec fn is_info_response(d: Seq<u8>) -> bool {
    d.len() >= DEVICE_INFO_RESPONSE_SIZE && d[0] == DEVICE_INFO_MARKER
}

pub open spec fn is_config_response(d: Seq<u8>) -> bool {
    d.len() >= DEVICE_CONFIG_RESPONSE_SIZE && d[0] == DEVICE_CONFIG_MARKER
}

pub open spec fn is_set_config_response(d: Seq<u8>) -> bool {
    d.len() >= ACK_RESPONSE_SIZE && d[0] == SET_DEVICE_CONFIG_MARKER
}

pub open spec fn is_cancel_response(d: Seq<u8>) -> bool {
    d.len() >= ACK_RESPONSE_SIZE && d[0] == CANCEL_MARKER
}

/// Whether `r` is what the payload `d` of a response frame says.
pub open spec fn response_matches(d: Seq<u8>, r: FIRMResponsePacket) -> bool {
    match r {
        FIRMResponsePacket::GetDeviceInfo(info) => is_info_response(d) && info.id == le64_at(d, 1)
            && info.firmware_version@ == field_text(d.subrange(9, 17)),
        FIRMResponsePacket::GetDeviceConfig(c) => is_config_response(d) && c.name@ == field_text(
            d.subrange(1, 33),
        ) && c.frequency == le16_at(d, 33) && c.protocol == protocol_of_byte(d[35]),
        FIRMResponsePacket::SetDeviceConfig(ok) => is_set_config_response(d) && ok == (d[1] == 1),
        FIRMResponsePacket::Cancel(ok) => is_cancel_response(d) && ok == (d[1] == 1),
        FIRMResponsePacket::Error(reason) => !is_info_response(d) && !is_config_response(d)
            && !is_set_config_response(d) && !is_cancel_response(d) && reason@
            == "Unknown response marker"@,
    }
}

impl FIRMResponsePacket {
    /// Decodes a response payload, `[marker][data...]`; a payload with an
    /// unknown marker, or too short for its marker, is an `Error`.
    pub fn from_bytes(data: &[u8]) -> (r: FIRMResponsePacket)
        ensures
            response_matches(data@, r),
    {
        let n = data.len();
        if n >= DEVICE_INFO_RESPONSE_SIZE && data[0] == DEVICE_INFO_MARKER {
            let id = read_le64(data, 1);
            let firmware_version = bytes_to_str(
                slice_subrange(data, 1 + DEVICE_ID_LENGTH, 1 + DEVICE_ID_LENGTH + FIRMWARE_VERSION_LENGTH),
            );
            FIRMResponsePacket::GetDeviceInfo(DeviceInfo { firmware_version, id })
        } else if n >= DEVICE_CONFIG_RESPONSE_SIZE && data[0] == DEVICE_CONFIG_MARKER {
            let name = bytes_to_str(slice_subrange(data, 1, 1 + DEVICE_NAME_LENGTH));
            let frequency = read_le16(data, 1 + DEVICE_NAME_LENGTH);
            let protocol = DeviceProtocol::from_byte(data[1 + DEVICE_NAME_LENGTH + FREQUENCY_LENGTH]);
            FIRMResponsePacket::GetDeviceConfig(DeviceConfig { name, frequency, protocol })
        } else if n >= ACK_RESPONSE_SIZE && data[0] == SET_DEVICE_CONFIG_MARKER {
            FIRMResponsePacket::SetDeviceConfig(data[1] == 1)
        } else if n >= ACK_RESPONSE_SIZE && data[0] == CANCEL_MARKER {
            FIRMResponsePacket::Cancel(data[1] == 1)
        } else {
            FIRMResponsePacket::Error("Unknown response marker".to_owned())
        }
    }
}

/// Bytes of a telemetry payload.
pub const PAYLOAD_LENGTH: usize = 120;

/// Bytes of a telemetry payload that carry readings; the rest is zero.
pub const TELEMETRY_FIELDS_LENGTH: usize = 56;

/// A telemetry sample as the wire carries it: the IEEE-754 bit patterns of
/// the timestamp (seconds, double precision) and of each single-precision
/// reading, in the units the device sends (acceleration in g).
#[derive(Debug, Clone, Copy, PartialEq, Eq, Structural)]
pub struct FIRMDataPacket {
    pub timestamp_bits: u64,
    pub temperature_bits: u32,
    pub pressure_bits: u32,
    pub accel_x_bits: u32,
    pub accel_y_bits: u32,
    pub accel_z_bits: u32,
    pub gyro_x_bits: u32,
    pub gyro_y_bits: u32,
    pub gyro_z_bits: u32,
    pub mag_x_bits: u32,
    pub mag_y_bits: u32,
    pub mag_z_bits: u32,
}

/// The sample that the telemetry payload `d` holds: temperature, pressure,
/// acceleration, angular rate and magnetic field, four bytes each from 0,
/// four bytes of padding, then the timestamp at 48.
pub open spec fn telemetry_of(d: Seq<u8>) -> FIRMDataPacket {
    FIRMDataPacket {
        temperature_bits: le32_at(d, 0),
        pressure_bits: le32_at(d, 4),
        accel_x_bits: le32_at(d, 8),
        accel_y_bits: le32_at(d, 12),
        accel_z_bits: le32_at(d, 16),
        gyro_x_bits: le32_at(d, 20),
        gyro_y_bits: le32_at(d, 24),
        gyro_z_bits: le32_at(d, 28),
        mag_x_bits: le32_at(d, 32),
        mag_y_bits: le32_at(d, 36),
        mag_z_bits: le32_at(d, 40),
        timestamp_bits: le64_at(d, 48),
    }
}

/// The telemetry payload that carries `p`: its fields in the order
/// `telemetry_of` reads them, then zeros up to the payload size.
pub open spec fn telemetry_payload(p: FIRMDataPacket) -> Seq<u8> {
    u32_le(p.temperature_bits) + u32_le(p.pressure_bits) + u32_le(p.accel_x_bits) + u32_le(
        p.accel_y_bits,
    ) + u32_le(p.accel_z_bits) + u32_le(p.gyro_x_bits) + u32_le(p.gyro_y_bits) + u32_le(
        p.gyro_z_bits,
    ) + u32_le(p.mag_x_bits) + u32_le(p.mag_y_bits) + u32_le(p.mag_z_bits) + u32_le(0u32) + u64_le(
        p.timestamp_bits,
    ) + Seq::new((PAYLOAD_LENGTH - TELEMETRY_FIELDS_LENGTH) as nat, |i: int| 0u8)
}

/// Reading the payload that encoding wrote gives back the same sample.
pub proof fn lemma_telemetry_round_trip(p: FIRMDataPacket)
    ensures
        telemetry_payload(p).len() == PAYLOAD_LENGTH,
        telemetry_of(telemetry_payload(p)) == p,
{
    let s = telemetry_payload(p);
    assert(s.subrange(0, 4) =~= u32_le(p.temperature_bits));
    assert(s.subrange(4, 8) =~= u32_le(p.pressure_bits));
    assert(s.subrange(8, 12) =~= u32_le(p.accel_x_bits));
    assert(s.subrange(12, 16) =~= u32_le(p.accel_y_bits));
    assert(s.subrange(16, 20) =~= u32_le(p.accel_z_bits));
    assert(s.subrange(20, 24) =~= u32_le(p.gyro_x_bits));
    assert(s.subrange(24, 28) =~= u32_le(p.gyro_y_bits));
    assert(s.subrange(28, 32) =~= u32_le(p.gyro_z_bits));
    assert(s.subrange(32, 36) =~= u32_le(p.mag_x_bits));
    assert(s.subrange(36, 40) =~= u32_le(p.mag_y_bits));
    assert(s.subrange(40, 44) =~= u32_le(p.mag_z_bits));
    assert(s.subrange(48, 56) =~= u64_le(p.timestamp_bits));
    lemma_le32_in(s, 0, p.temperature_bits);
    lemma_le32_in(s, 4, p.pressure_bits);
    lemma_le32_in(s, 8, p.accel_x_bits);
    lemma_le32_in(s, 12, p.accel_y_bits);
    lemma_le32_in(s, 16, p.accel_z_bits);
    lemma_le32_in(s, 20, p.gyro_x_bits);
    lemma_le32_in(s, 24, p.gyro_y_bits);
    lemma_le32_in(s, 28, p.gyro_z_bits);
    lemma_le32_in(s, 32, p.mag_x_bits);
    lemma_le32_in(s, 36, p.mag_y_bits);
    lemma_le32_in(s, 40, p.mag_z_bits);
    lemma_le64_in(s, 48, p.timestamp_bits);
}

impl FIRMDataPacket {
    /// The telemetry payload that carries this sample.
    pub fn to_bytes(&self) -> (r: Vec<u8>)
        ensures
            r@ == telemetry_payload(*self),
    {
        let mut out: Vec<u8> = Vec::new();
        push_le32(&mut out, self.temperature_bits);
        push_le32(&mut out, self.pressure_bits);
        push_le32(&mut out, self.accel_x_bits);
        push_le32(&mut out, self.accel_y_bits);
        push_le32(&mut out, self.accel_z_bits);
        push_le32(&mut out, self.gyro_x_bits);
        push_le32(&mut out, self.gyro_y_bits);
        push_le32(&mut out, self.gyro_z_bits);
        push_le32(&mut out, self.mag_x_bits);
        push_le32(&mut out, self.mag_y_bits);
        push_le32(&mut out, self.mag_z_bits);
        push_le32(&mut out, 0);
        push_le64(&mut out, self.timestamp_bits);
        let ghost fields = out@;
        assert(fields.len() == TELEMETRY_FIELDS_LENGTH);
        while out.len() < PAYLOAD_LENGTH
            invariant
                TELEMETRY_FIELDS_LENGTH <= out@.len() <= PAYLOAD_LENGTH,
                out@ == fields + Seq::new((out@.len() - TELEMETRY_FIELDS_LENGTH) as nat, |i: int| 0u8),
            decreases PAYLOAD_LENGTH - out@.len(),
        {
            out.push(0);
            assert(out@ =~= fields + Seq::new((out@.len() - TELEMETRY_FIELDS_LENGTH) as nat, |i: int| 0u8));
        }
        assert(out@ =~= telemetry_payload(*self));
        out
    }

    /// Reads a sample from a telemetry payload; a payload too short to hold
    /// every reading gives `None`.
    pub fn from_bytes(bytes: &[u8]) -> (r: Option<FIRMDataPacket>)
        ensures
            bytes@.len() >= TELEMETRY_FIELDS_LENGTH ==> r == Some(telemetry_of(bytes@)),
            bytes@.len() < TELEMETRY_FIELDS_LENGTH ==> r is None,
    {
        if bytes.len() < TELEMETRY_FIELDS_LENGTH {
            return None;
        }
        Some(FIRMDataPacket {
            temperature_bits: read_le32(bytes, 0),
            pressure_bits: read_le32(bytes, 4),
            accel_x_bits: read_le32(bytes, 8),
            accel_y_bits: read_le32(bytes, 12),
            accel_z_bits: read_le32(bytes, 16),
            gyro_x_bits: read_le32(bytes, 20),
            gyro_y_bits: read_le32(bytes, 24),
            gyro_z_bits: read_le32(bytes, 28),
            mag_x_bits: read_le32(bytes, 32),
            mag_y_bits: read_le32(bytes, 36),
            mag_z_bits: read_le32(bytes, 40),
            timestamp_bits: read_le64(bytes, 48),
        })
    }
}

} // verus!
