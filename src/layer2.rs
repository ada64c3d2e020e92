//! Telegram framing: wire constants, the expected-component tag, and the
//! components of the push parser.
pub mod address;
pub mod crc;
pub mod frame;
pub mod packet;
pub mod payload;
pub mod reader;

use vstd::prelude::*;

verus! {

/// Maximum value of the NN (payload length) part of a telegram.
pub const MAX_NN: usize = 16;

/// Frame delimiter.
pub const EBUS_SYN: u8 = 0xaa;

/// Byte-stuffing prefix.
pub const EBUS_ESCAPE: u8 = 0xa9;

/// Positive acknowledgement.
pub const EBUS_ACKOK: u8 = 0x00;

/// Negative acknowledgement.
pub const EBUS_ACKKO: u8 = 0xff;

} // verus!

verus! {

/// The component of a telegram that the reader expects next.
#[derive(Clone, Copy, PartialEq, Eq, Structural, Debug)]
pub enum TelegramComponent {
    SYN,
    Source,
    Destination,
    Primary,
    Secondary,
    MasterPayloadLength,
    MasterPayload,
    MasterEscapedPayload,
    MasterEscapedCRC,
    MasterCRC,
    /// Also designates the acknowledgement sent by a destination master.
    SlaveACK,
    SlavePayloadLength,
    SlavePayload,
    SlaveEscapedPayload,
    SlaveEscapedCRC,
    SlaveCRC,
    MasterACK,
}

} // verus!
