//! Wire constants shared with the device firmware.

use vstd::prelude::*;

use crate::framed_packet::FrameError;

verus! {

/// Bytes taken by the frame class field.
pub const HEADER_SIZE: usize = 2;

/// Bytes taken by the frame identifier field.
pub const IDENTIFIER_SIZE: usize = 2;

/// Bytes taken by the payload length field.
pub const LENGTH_SIZE: usize = 4;

/// Bytes taken by the trailing checksum.
pub const CRC_SIZE: usize = 2;

/// Size of a frame with an empty payload.
pub const MIN_PACKET_SIZE: usize = 10;

/// Largest payload a frame may carry.
pub const MAX_PAYLOAD_SIZE: usize = 256;

/// Class of a frame, the first little-endian `u16` on the wire.
#[derive(Debug, Clone, Copy, PartialEq, Eq, Structural)]
pub enum PacketHeader {
    Data,
    Response,
    MockSensor,
    Command,
}

/// The magic number of each frame class.
pub open spec fn header_code(h: PacketHeader) -> u16 {
    match h {
        PacketHeader::Data => 0xA55Au16,
        PacketHeader::Response => 0x5AA5u16,
        PacketHeader::MockSensor => 0x6BB6u16,
        PacketHeader::Command => 0xB66Bu16,
    }
}

/// The frame class whose magic number is `v`, if any.
pub open spec fn header_of_code(v: u16) -> Option<PacketHeader> {
    if v == 0xA55Au16 {
        Some(PacketHeader::Data)
    } else if v == 0x5AA5u16 {
        Some(PacketHeader::Response)
    } else if v == 0x6BB6u16 {
        Some(PacketHeader::MockSensor)
    } else if v == 0xB66Bu16 {
        Some(PacketHeader::Command)
    } else {
        None
    }
}

impl PacketHeader {
    pub fn as_u16(self) -> (r: u16)
        ensures
            r == header_code(self),
    {
        match self {
            PacketHeader::Data => 0xA55A,
            PacketHeader::Response => 0x5AA5,
            PacketHeader::MockSensor => 0x6BB6,
            PacketHeader::Command => 0xB66B,
        }
    }

    pub fn from_u16(v: u16) -> (r: Option<PacketHeader>)
        ensures
            r == header_of_code(v),
            r matches Some(h) ==> header_code(h) == v,
            r is None ==> forall|h: PacketHeader| header_code(h) != v,
    {
        if v == 0xA55A {
            Some(PacketHeader::Data)
        } else if v == 0x5AA5 {
            Some(PacketHeader::Response)
        } else if v == 0x6BB6 {
            Some(PacketHeader::MockSensor)
        } else if v == 0xB66B {
            Some(PacketHeader::Command)
        } else {
            None
        }
    }
}

/// Every class decodes back from its own magic number.
pub proof fn lemma_header_code_round_trip(h: PacketHeader)
    ensures
        header_of_code(header_code(h)) == Some(h),
{
}

/// Commands the device accepts; each one is the identifier of a command frame.
#[derive(Debug, Clone, Copy, PartialEq, Eq, Structural)]
pub enum FIRMCommand {
    GetDeviceInfo,
    GetDeviceConfig,
    SetDeviceConfig,
    Reboot,
    Mock,
    Cancel,
}

/// The identifier that each command carries on the wire.
pub open spec fn command_marker(c: FIRMCommand) -> u16 {
    match c {
        FIRMCommand::GetDeviceInfo => 0x0001u16,
        FIRMCommand::GetDeviceConfig => 0x0002u16,
        FIRMCommand::SetDeviceConfig => 0x0003u16,
        FIRMCommand::Reboot => 0x0004u16,
        FIRMCommand::Mock => 0x0005u16,
        FIRMCommand::Cancel => 0x00FFu16,
    }
}

/// The command whose identifier is `m`, if any.
pub open spec fn command_of_marker(m: u16) -> Option<FIRMCommand> {
    if m == 0x0001u16 {
        Some(FIRMCommand::GetDeviceInfo)
    } else if m == 0x0002u16 {
        Some(FIRMCommand::GetDeviceConfig)
    } else if m == 0x0003u16 {
        Some(FIRMCommand::SetDeviceConfig)
    } else if m == 0x0004u16 {
        Some(FIRMCommand::Reboot)
    } else if m == 0x0005u16 {
        Some(FIRMCommand::Mock)
    } else if m == 0x00FFu16 {
        Some(FIRMCommand::Cancel)
    } else {
        None
    }
}

impl FIRMCommand {
    pub fn marker(self) -> (r: u16)
        ensures
            r == command_marker(self),
    {
        match self {
            FIRMCommand::GetDeviceInfo => 0x0001,
            FIRMCommand::GetDeviceConfig => 0x0002,
            FIRMCommand::SetDeviceConfig => 0x0003,
            FIRMCommand::Reboot => 0x0004,
            FIRMCommand::Mock => 0x0005,
            FIRMCommand::Cancel => 0x00FF,
        }
    }

    /// The command with identifier `marker`; any other value is refused.
    pub fn from_marker(marker: u16) -> (r: Result<FIRMCommand, FrameError>)
        ensures
            command_of_marker(marker) matches Some(c) ==> r == Ok::<FIRMCommand, FrameError>(c),
            command_of_marker(marker) is None ==> r == Err::<FIRMCommand, FrameError>(
                FrameError::UnknownMarker(marker),
            ),
    {
        if marker == 0x0001 {
            Ok(FIRMCommand::GetDeviceInfo)
        } else if marker == 0x0002 {
            Ok(FIRMCommand::GetDeviceConfig)
        } else if marker == 0x0003 {
            Ok(FIRMCommand::SetDeviceConfig)
        } else if marker == 0x0004 {
            Ok(FIRMCommand::Reboot)
        } else if marker == 0x0005 {
            Ok(FIRMCommand::Mock)
        } else if marker == 0x00FF {
            Ok(FIRMCommand::Cancel)
        } else {
            Err(FrameError::UnknownMarker(marker))
        }
    }
}

/// Every command decodes back from its own identifier.
pub proof fn lemma_command_marker_round_trip(c: FIRMCommand)
    ensures
        command_of_marker(command_marker(c)) == Some(c),
{
}

/// Marker byte that a response payload starts with, per command.
pub const DEVICE_INFO_MARKER: u8 = 0x01;
pub const DEVICE_CONFIG_MARKER: u8 = 0x02;
pub const SET_DEVICE_CONFIG_MARKER: u8 = 0x03;
pub const REBOOT_MARKER: u8 = 0x04;
pub const MOCK_MARKER: u8 = 0x05;
pub const CANCEL_MARKER: u8 = 0xFF;

/// Field widths of command and response payloads.
pub const CRC_LENGTH: usize = 2;
pub const DEVICE_NAME_LENGTH: usize = 32;
pub const DEVICE_ID_LENGTH: usize = 8;
pub const FIRMWARE_VERSION_LENGTH: usize = 8;
pub const FREQUENCY_LENGTH: usize = 2;

/// Kind of a mock-sensor frame, carried as its identifier: the log header,
/// or a record of one of the three sensors.
#[derive(Debug, Clone, Copy, PartialEq, Eq, Structural)]
pub enum FIRMMockPacketType {
    Header,
    B,
    I,
    M,
}

/// The ASCII letter that names each mock frame kind.
pub open spec fn mock_type_byte(t: FIRMMockPacketType) -> u8 {
    match t {
        FIRMMockPacketType::Header => 0x48u8,
        FIRMMockPacketType::B => 0x42u8,
        FIRMMockPacketType::I => 0x49u8,
        FIRMMockPacketType::M => 0x4Du8,
    }
}

/// The mock frame kind named by the letter `b`, if any.
pub open spec fn mock_type_of_byte(b: u8) -> Option<FIRMMockPacketType> {
    if b == 0x48u8 {
        Some(FIRMMockPacketType::Header)
    } else if b == 0x42u8 {
        Some(FIRMMockPacketType::B)
    } else if b == 0x49u8 {
        Some(FIRMMockPacketType::I)
    } else if b == 0x4Du8 {
        Some(FIRMMockPacketType::M)
    } else {
        None
    }
}

impl FIRMMockPacketType {
    pub fn as_byte(self) -> (r: u8)
        ensures
            r == mock_type_byte(self),
    {
        match self {
            FIRMMockPacketType::Header => 0x48,
            FIRMMockPacketType::B => 0x42,
            FIRMMockPacketType::I => 0x49,
            FIRMMockPacketType::M => 0x4D,
        }
    }

    pub fn from_byte(b: u8) -> (r: Option<FIRMMockPacketType>)
        ensures
            r == mock_type_of_byte(b),
    {
        if b == 0x48 {
            Some(FIRMMockPacketType::Header)
        } else if b == 0x42 {
            Some(FIRMMockPacketType::B)
        } else if b == 0x49 {
            Some(FIRMMockPacketType::I)
        } else if b == 0x4D {
            Some(FIRMMockPacketType::M)
        } else {
            None
        }
    }

    pub fn as_u16(self) -> (r: u16)
        ensures
            r == mock_type_byte(self) as u16,
    {
        self.as_byte() as u16
    }

    pub fn from_u16(v: u16) -> (r: Option<FIRMMockPacketType>)
        ensures
            v < 256 ==> r == mock_type_of_byte(v as u8),
            v >= 256 ==> r is None,
    {
        if v < 256 {
            Self::from_byte(v as u8)
        } else {
            None
        }
    }
}

/// Sensor identifiers that open each record of a captured log.
pub const BMP581_ID: u8 = 0x42;
pub const ICM45686_ID: u8 = 0x49;
pub const MMC5983MA_ID: u8 = 0x4D;

/// Raw payload bytes of each sensor's log record, after the tick counter.
pub const BMP581_SIZE: usize = 6;
pub const ICM45686_SIZE: usize = 15;
pub const MMC5983MA_SIZE: usize = 7;

/// Bytes of the 24-bit big-endian tick counter in each log record.
pub const MOCK_PACKET_TIMESTAMP_SIZE: usize = 3;

/// Rate of the log's tick counter, in ticks per second.
pub const TICKS_PER_SECOND: u64 = 168000000;

/// Layout of the log file header.
pub const HEADER_SIZE_TEXT: usize = 14;
pub const HEADER_UID_SIZE: usize = 8;
pub const HEADER_DEVICE_NAME_LEN: usize = 33;
pub const HEADER_COMM_SIZE: usize = 2;
pub const HEADER_PADDING_SIZE: usize = 5;
pub const HEADER_CAL_SIZE: usize = 144;
pub const HEADER_NUM_SCALE_FACTORS: usize = 5;
pub const HEADER_TOTAL_SIZE: usize = 226;

} // verus!
