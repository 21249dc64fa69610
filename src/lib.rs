//! Host-side protocol engine for the FIRM telemetry device: frame codec,
//! resynchronising stream parser, response correlation and log decoding.

pub mod constants;
pub mod bytes;
pub mod client;
pub mod client_packets;
pub mod crc;
pub mod data_parser;
pub mod firm_packets;
pub mod framed_packet;
pub mod mock;
pub mod utils;
