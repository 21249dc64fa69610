//! Frames the host sends: commands, and mock-sensor frames for log replay.

use vstd::prelude::*;
use vstd::utf8::encode_utf8;

use crate::bytes::{push_le16, u16_le};
use crate::constants::{
    command_marker, command_of_marker, lemma_command_marker_round_trip, mock_type_byte,
    mock_type_of_byte, FIRMCommand, FIRMMockPacketType, PacketHeader, DEVICE_NAME_LENGTH,
    MAX_PAYLOAD_SIZE,
};
use crate::firm_packets::{protocol_byte, telemetry_payload, DeviceConfig, FIRMDataPacket, PAYLOAD_LENGTH};
use crate::framed_packet::{
    decode_frame, encode_frame, lemma_frame_round_trip, make_frame, valid_frame, FrameError,
    FrameView, FramedPacket,
};
use crate::utils::{fixed_field, str_to_bytes};

verus! {

/// The command that a frame carries, if it is a command frame with a known identifier.
pub open spec fn command_of_frame(f: FrameView) -> Option<FIRMCommand> {
    if f.header == PacketHeader::Command {
        command_of_marker(f.identifier)
    } else {
        None
    }
}

/// The payload of a set-configuration command: the name in 32 NUL-padded
/// bytes, the frequency little-endian, then the protocol byte.
pub open spec fn config_payload(c: DeviceConfig) -> Seq<u8> {
    fixed_field(encode_utf8(c.name@), DEVICE_NAME_LENGTH as nat) + u16_le(c.frequency) + seq![
        protocol_byte(c.protocol),
    ]
}

/// The frame that sends `command` with `payload`.
pub open spec fn command_frame(command: FIRMCommand, payload: Seq<u8>) -> FrameView {
    make_frame(PacketHeader::Command, command_marker(command), payload)
}

/// A command, framed for the wire.
pub struct FIRMCommandPacket {
    command_type: FIRMCommand,
    frame: FramedPacket,
}

impl FIRMCommandPacket {
    /// The command carried.
    pub closed spec fn command(&self) -> FIRMCommand {
        self.command_type
    }

    /// The frame that carries it.
    pub closed spec fn frame_view(&self) -> FrameView {
        self.frame@
    }

    /// The frame is valid and carries the command.
    pub closed spec fn wf(&self) -> bool {
        valid_frame(self.frame@) && command_of_frame(self.frame@) == Some(self.command_type)
    }

    pub fn new(command_type: FIRMCommand, payload: Vec<u8>) -> (r: FIRMCommandPacket)
        requires
            payload@.len() <= MAX_PAYLOAD_SIZE,
        ensures
            r.wf(),
            r.command() == command_type,
            r.frame_view() == command_frame(command_type, payload@),
    {
        let frame = FramedPacket::with_payload(PacketHeader::Command, command_type.marker(), payload.as_slice());
        proof {
            lemma_command_marker_round_trip(command_type);
        }
        FIRMCommandPacket { command_type, frame }
    }

    pub fn command_type(&self) -> (r: FIRMCommand)
        ensures
            r == self.command(),
    {
        self.command_type
    }

    pub fn header(&self) -> (r: PacketHeader)
        ensures
            r == self.frame_view().header,
    {
        self.frame.header()
    }

    pub fn identifier(&self) -> (r: u16)
        ensures
            r == self.frame_view().identifier,
    {
        self.frame.identifier()
    }

    pub fn payload(&self) -> (r: &[u8])
        ensures
            r@ == self.frame_view().payload,
    {
        self.frame.payload()
    }

    pub fn len(&self) -> (r: u32)
        requires
            self.wf(),
        ensures
            r == self.frame_view().payload.len(),
    {
        self.frame.len()
    }

    pub fn crc(&self) -> (r: u16)
        ensures
            r == self.frame_view().crc,
    {
        self.frame.crc()
    }

    /// The wire bytes of the command.
    pub fn to_bytes(&self) -> (r: Vec<u8>)
        requires
            self.wf(),
        ensures
            r@ == encode_frame(self.frame_view()),
    {
        self.frame.to_bytes()
    }

    /// Parses a command frame; a valid frame of another class is refused with
    /// its class number, and a command frame with an unknown identifier with
    /// that identifier.
    pub fn from_bytes(bytes: &[u8]) -> (r: Result<FIRMCommandPacket, FrameError>)
        ensures
            r matches Ok(p) ==> p.wf() && decode_frame(bytes@) == Ok::<FrameView, FrameError>(
                p.frame_view(),
            ) && command_of_frame(p.frame_view()) == Some(p.command()),
            r matches Err(e) ==> match decode_frame(bytes@) {
                Ok(f) => command_of_frame(f) is None && (f.header != PacketHeader::Command ==> e
                    == FrameError::UnknownIdentifier(crate::constants::header_code(f.header)))
                    && (f.header == PacketHeader::Command ==> e == FrameError::UnknownMarker(
                    f.identifier,
                )),
                Err(d) => e == d,
            },
    {
        let frame = FramedPacket::from_bytes(bytes)?;
        let header = frame.header();
        if header != PacketHeader::Command {
            return Err(FrameError::UnknownIdentifier(header.as_u16()));
        }
        let command_type = FIRMCommand::from_marker(frame.identifier())?;
        Ok(FIRMCommandPacket { command_type, frame })
    }

    pub fn get_device_info() -> (r: FIRMCommandPacket)
        ensures
            r.wf(),
            r.command() == FIRMCommand::GetDeviceInfo,
            r.frame_view() == command_frame(FIRMCommand::GetDeviceInfo, Seq::<u8>::empty()),
    {
        Self::new_empty(FIRMCommand::GetDeviceInfo)
    }

    pub fn get_device_config() -> (r: FIRMCommandPacket)
        ensures
            r.wf(),
            r.command() == FIRMCommand::GetDeviceConfig,
            r.frame_view() == command_frame(FIRMCommand::GetDeviceConfig, Seq::<u8>::empty()),
    {
        Self::new_empty(FIRMCommand::GetDeviceConfig)
    }

    pub fn cancel() -> (r: FIRMCommandPacket)
        ensures
            r.wf(),
            r.command() == FIRMCommand::Cancel,
            r.frame_view() == command_frame(FIRMCommand::Cancel, Seq::<u8>::empty()),
    {
        Self::new_empty(FIRMCommand::Cancel)
    }

    pub fn reboot() -> (r: FIRMCommandPacket)
        ensures
            r.wf(),
            r.command() == FIRMCommand::Reboot,
            r.frame_view() == command_frame(FIRMCommand::Reboot, Seq::<u8>::empty()),
    {
        Self::new_empty(FIRMCommand::Reboot)
    }

    pub fn mock() -> (r: FIRMCommandPacket)
        ensures
            r.wf(),
            r.command() == FIRMCommand::Mock,
            r.frame_view() == command_frame(FIRMCommand::Mock, Seq::<u8>::empty()),
    {
        Self::new_empty(FIRMCommand::Mock)
    }

    fn new_empty(command_type: FIRMCommand) -> (r: FIRMCommandPacket)
        ensures
            r.wf(),
            r.command() == command_type,
            r.frame_view() == command_frame(command_type, Seq::<u8>::empty()),
    {
        let payload: Vec<u8> = Vec::new();
        Self::new(command_type, payload)
    }

    /// The command that sets the device's name, rate and link.
    pub fn set_device_config(config: DeviceConfig) -> (r: FIRMCommandPacket)
        ensures
            r.wf(),
            r.command() == FIRMCommand::SetDeviceConfig,
            r.frame_view() == command_frame(FIRMCommand::SetDeviceConfig, config_payload(config)),
    {
        let mut payload = str_to_bytes(config.name.as_str(), DEVICE_NAME_LENGTH);
        push_le16(&mut payload, config.frequency);
        payload.push(config.protocol.as_byte());
        assert(payload@ =~= config_payload(config));
        Self::new(FIRMCommand::SetDeviceConfig, payload)
    }
}

/// The frame that carries a mock-sensor payload of kind `t`.
pub open spec fn mock_frame(t: FIRMMockPacketType, payload: Seq<u8>) -> FrameView {
    make_frame(PacketHeader::MockSensor, mock_type_byte(t) as u16, payload)
}

/// The mock kind that a frame carries, if it is a mock-sensor frame with a known kind.
pub open spec fn mock_type_of_frame(f: FrameView) -> Option<FIRMMockPacketType> {
    if f.header == PacketHeader::MockSensor && f.identifier < 256 {
        mock_type_of_byte(f.identifier as u8)
    } else {
        None
    }
}

/// A mock-sensor frame: a log header or one sensor record, replayed to the device.
pub struct FIRMMockPacket {
    packet_type: FIRMMockPacketType,
    frame: FramedPacket,
}

impl FIRMMockPacket {
    /// The kind carried.
    pub closed spec fn kind(&self) -> FIRMMockPacketType {
        self.packet_type
    }

    /// The frame that carries it.
    pub closed spec fn frame_view(&self) -> FrameView {
        self.frame@
    }

    /// The frame is valid and carries the kind.
    pub closed spec fn wf(&self) -> bool {
        valid_frame(self.frame@) && mock_type_of_frame(self.frame@) == Some(self.packet_type)
    }

    pub fn new(packet_type: FIRMMockPacketType, payload: Vec<u8>) -> (r: FIRMMockPacket)
        requires
            payload@.len() <= MAX_PAYLOAD_SIZE,
        ensures
            r.wf(),
            r.kind() == packet_type,
            r.frame_view() == mock_frame(packet_type, payload@),
    {
        let frame = FramedPacket::with_payload(PacketHeader::MockSensor, packet_type.as_u16(), payload.as_slice());
        FIRMMockPacket { packet_type, frame }
    }

    /// The frame that replays a telemetry sample: kind `I`, carrying the
    /// sample in the telemetry payload layout.
    pub fn telemetry(sample: &FIRMDataPacket) -> (r: FIRMMockPacket)
        ensures
            r.wf(),
            r.kind() == FIRMMockPacketType::I,
            r.frame_view() == mock_frame(FIRMMockPacketType::I, telemetry_payload(*sample)),
            r.frame_view().payload.len() == PAYLOAD_LENGTH,
    {
        Self::new(FIRMMockPacketType::I, sample.to_bytes())
    }

    pub fn packet_type(&self) -> (r: FIRMMockPacketType)
        ensures
            r == self.kind(),
    {
        self.packet_type
    }

    pub fn header(&self) -> (r: PacketHeader)
        ensures
            r == self.frame_view().header,
    {
        self.frame.header()
    }

    pub fn payload(&self) -> (r: &[u8])
        ensures
            r@ == self.frame_view().payload,
    {
        self.frame.payload()
    }

    pub fn len(&self) -> (r: u32)
        requires
            self.wf(),
        ensures
            r == self.frame_view().payload.len(),
    {
        self.frame.len()
    }

    pub fn crc(&self) -> (r: u16)
        ensures
            r == self.frame_view().crc,
    {
        self.frame.crc()
    }

    /// The wire bytes of the frame.
    pub fn to_bytes(&self) -> (r: Vec<u8>)
        requires
            self.wf(),
        ensures
            r@ == encode_frame(self.frame_view()),
    {
        self.frame.to_bytes()
    }

    /// Parses a mock-sensor frame; anything else, or a damaged frame, gives `None`.
    pub fn from_bytes(bytes: &[u8]) -> (r: Option<FIRMMockPacket>)
        ensures
            r matches Some(p) ==> p.wf() && decode_frame(bytes@) == Ok::<FrameView, FrameError>(
                p.frame_view(),
            ) && mock_type_of_frame(p.frame_view()) == Some(p.kind()),
            r is None ==> !(decode_frame(bytes@) matches Ok(f) && mock_type_of_frame(f) is Some),
    {
        let frame = match FramedPacket::from_bytes(bytes) {
            Ok(f) => f,
            Err(_) => {
                return None;
            },
        };
        if frame.header() != PacketHeader::MockSensor {
            return None;
        }
        let id = frame.identifier();
        if id >= 256 {
            return None;
        }
        match FIRMMockPacketType::from_byte(id as u8) {
            Some(packet_type) => Some(FIRMMockPacket { packet_type, frame }),
            None => None,
        }
    }
}

/// Decoding a command's wire bytes gives back that command and its payload.
pub proof fn lemma_command_round_trip(command: FIRMCommand, payload: Seq<u8>)
    requires
        payload.len() <= MAX_PAYLOAD_SIZE,
    ensures
        decode_frame(encode_frame(command_frame(command, payload))) == Ok::<FrameView, FrameError>(
            command_frame(command, payload),
        ),
        command_of_frame(command_frame(command, payload)) == Some(command),
{
    lemma_frame_round_trip(command_frame(command, payload));
    lemma_command_marker_round_trip(command);
}

} // verus!
