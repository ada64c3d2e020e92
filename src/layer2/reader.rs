//! The push parser: one octet at a time, it rebuilds the telegram on the bus.
use vstd::prelude::*;

use super::address::{class_of, AddressClass};
use super::crc::{crc_step, stack_crc};
use super::packet::{empty_packet, Packet, PacketView};
use super::payload::{payload_clear, payload_len, payload_push};
use super::{TelegramComponent, EBUS_ACKOK, EBUS_ESCAPE, EBUS_SYN, MAX_NN};

verus! {

/// The octet that an escape sequence `EBUS_ESCAPE c` stands for, if any.
pub open spec fn decode_escape(c: u8) -> Option<u8> {
    if c == 0x00 {
        Some(EBUS_ESCAPE)
    } else if c == 0x01 {
        Some(EBUS_SYN)
    } else {
        None
    }
}

/// Decodes the octet that follows an escape prefix in a payload or a CRC.
fn escape(c: u8) -> (r: Option<u8>)
    ensures
        r == decode_escape(c),
{
    match c {
        0x00 => Some(EBUS_ESCAPE),
        0x01 => Some(EBUS_SYN),
        _ => None,
    }
}

/// The state of a reader: the component it expects and the packet so far.
pub ghost struct ReaderView {
    pub waiting_for: TelegramComponent,
    pub packet: PacketView,
}

impl ReaderView {
    /// The packet respects its bounds, and a payload being read still has
    /// room for an octet.
    pub open spec fn wf(self) -> bool {
        let p = self.packet;
        &&& p.wf()
        &&& (self.waiting_for == TelegramComponent::MasterPayload || self.waiting_for
            == TelegramComponent::MasterEscapedPayload) ==> p.master_payload.len()
            < p.master_payload_length
        &&& (self.waiting_for == TelegramComponent::SlavePayload || self.waiting_for
            == TelegramComponent::SlaveEscapedPayload) ==> p.slave_payload.len()
            < p.slave_payload_length
    }

    /// The same state, expecting `t` next.
    pub open spec fn expecting(self, t: TelegramComponent) -> ReaderView {
        ReaderView { waiting_for: t, packet: self.packet }
    }

    /// The same packet, awaiting a frame delimiter.
    pub open spec fn reset(self) -> ReaderView {
        self.expecting(TelegramComponent::SYN)
    }
}

/// The state after the master CRC `crc` has been received: a broadcast
/// telegram is complete, any other awaits the acknowledgement. (An invalid
/// destination, which the reader never accepts, also ends the telegram.)
pub open spec fn after_master_crc(r: ReaderView, crc: u8) -> ReaderView {
    let p = PacketView { master_crc: crc, ..r.packet };
    let next = match class_of(p.destination) {
        AddressClass::Broadcast => TelegramComponent::SYN,
        AddressClass::Invalid => TelegramComponent::SYN,
        _ => TelegramComponent::SlaveACK,
    };
    ReaderView { waiting_for: next, packet: p }
}

/// The state after the slave CRC `crc` has been received.
pub open spec fn after_slave_crc(r: ReaderView, crc: u8) -> ReaderView {
    ReaderView {
        waiting_for: TelegramComponent::MasterACK,
        packet: PacketView { slave_crc: crc, ..r.packet },
    }
}

/// The state after octet `b` of the master payload, received as `wire`
/// (which the CRC takes in).
pub open spec fn after_master_data(r: ReaderView, wire: u8, b: u8) -> ReaderView {
    let p = r.packet;
    let q = PacketView {
        master_payload: p.master_payload.push(b),
        computed_master_crc: crc_step(p.computed_master_crc, wire),
        ..p
    };
    let next = if p.master_payload_length - p.master_payload.len() <= 1 {
        TelegramComponent::MasterCRC
    } else {
        TelegramComponent::MasterPayload
    };
    ReaderView { waiting_for: next, packet: q }
}

/// The state after octet `b` of the slave payload, received as `wire`.
pub open spec fn after_slave_data(r: ReaderView, wire: u8, b: u8) -> ReaderView {
    let p = r.packet;
    let q = PacketView {
        slave_payload: p.slave_payload.push(b),
        computed_slave_crc: crc_step(p.computed_slave_crc, wire),
        ..p
    };
    let next = if p.slave_payload_length - p.slave_payload.len() <= 1 {
        TelegramComponent::SlaveCRC
    } else {
        TelegramComponent::SlavePayload
    };
    ReaderView { waiting_for: next, packet: q }
}

/// The state of a reader in state `r` after it has received octet `b`.
/// Every protocol error sends the reader back to awaiting a frame
/// delimiter, as does a payload without room left, which a well-formed
/// reader never meets.
pub open spec fn step(r: ReaderView, b: u8) -> ReaderView {
    let p = r.packet;
    if b == EBUS_SYN && r.waiting_for != TelegramComponent::SYN && r.waiting_for
        != TelegramComponent::Source {
        r.expecting(TelegramComponent::Source)
    } else {
        match r.waiting_for {
            TelegramComponent::SYN => if b == EBUS_SYN {
                r.expecting(TelegramComponent::Source)
            } else {
                r
            },
            TelegramComponent::Source => if class_of(b) is Master {
                ReaderView {
                    waiting_for: TelegramComponent::Destination,
                    packet: PacketView { source: b, computed_master_crc: crc_step(0, b), ..p },
                }
            } else if b == EBUS_SYN {
                r
            } else {
                r.reset()
            },
            TelegramComponent::Destination => if class_of(b) == AddressClass::Invalid {
                r.reset()
            } else {
                ReaderView {
                    waiting_for: TelegramComponent::Primary,
                    packet: PacketView {
                        destination: b,
                        computed_master_crc: crc_step(p.computed_master_crc, b),
                        ..p
                    },
                }
            },
            TelegramComponent::Primary => ReaderView {
                waiting_for: TelegramComponent::Secondary,
                packet: PacketView {
                    primary: b,
                    computed_master_crc: crc_step(p.computed_master_crc, b),
                    ..p
                },
            },
            TelegramComponent::Secondary => ReaderView {
                waiting_for: TelegramComponent::MasterPayloadLength,
                packet: PacketView {
                    secondary: b,
                    computed_master_crc: crc_step(p.computed_master_crc, b),
                    ..p
                },
            },
            TelegramComponent::MasterPayloadLength => if b > MAX_NN {
                r.reset()
            } else {
                ReaderView {
                    waiting_for: if b == 0 {
                        TelegramComponent::MasterCRC
                    } else {
                        TelegramComponent::MasterPayload
                    },
                    packet: PacketView {
                        master_payload_length: b,
                        master_payload: Seq::empty(),
                        computed_master_crc: crc_step(p.computed_master_crc, b),
                        ..p
                    },
                }
            },
            TelegramComponent::MasterPayload => if p.master_payload.len()
                >= p.master_payload_length {
                r.reset()
            } else if b == EBUS_ESCAPE {
                ReaderView {
                    waiting_for: TelegramComponent::MasterEscapedPayload,
                    packet: PacketView {
                        computed_master_crc: crc_step(p.computed_master_crc, b),
                        ..p
                    },
                }
            } else {
                after_master_data(r, b, b)
            },
            TelegramComponent::MasterEscapedPayload => match decode_escape(b) {
                None => r.reset(),
                Some(v) => if p.master_payload.len() >= p.master_payload_length {
                    r.reset()
                } else {
                    after_master_data(r, b, v)
                },
            },
            TelegramComponent::MasterCRC => if b == EBUS_ESCAPE {
                r.expecting(TelegramComponent::MasterEscapedCRC)
            } else {
                after_master_crc(r, b)
            },
            TelegramComponent::MasterEscapedCRC => match decode_escape(b) {
                None => r.reset(),
                Some(v) => after_master_crc(r, v),
            },
            TelegramComponent::SlaveACK => if b == EBUS_ACKOK && (class_of(p.destination) is Slave
                || class_of(p.destination) is MasterSlave) {
                r.expecting(TelegramComponent::SlavePayloadLength)
            } else {
                r.reset()
            },
            TelegramComponent::SlavePayloadLength => if b > MAX_NN {
                r.reset()
            } else {
                ReaderView {
                    waiting_for: if b == 0 {
                        TelegramComponent::SlaveCRC
                    } else {
                        TelegramComponent::SlavePayload
                    },
                    packet: PacketView {
                        slave_payload_length: b,
                        slave_payload: Seq::empty(),
                        computed_slave_crc: crc_step(0, b),
                        ..p
                    },
                }
            },
            TelegramComponent::SlavePayload => if p.slave_payload.len() >= p.slave_payload_length {
                r.reset()
            } else if b == EBUS_ESCAPE {
                ReaderView {
                    waiting_for: TelegramComponent::SlaveEscapedPayload,
                    packet: PacketView {
                        computed_slave_crc: crc_step(p.computed_slave_crc, b),
                        ..p
                    },
                }
            } else {
                after_slave_data(r, b, b)
            },
            TelegramComponent::SlaveEscapedPayload => match decode_escape(b) {
                None => r.reset(),
                Some(v) => if p.slave_payload.len() >= p.slave_payload_length {
                    r.reset()
                } else {
                    after_slave_data(r, b, v)
                },
            },
            TelegramComponent::SlaveCRC => if b == EBUS_ESCAPE {
                r.expecting(TelegramComponent::SlaveEscapedCRC)
            } else {
                after_slave_crc(r, b)
            },
            TelegramComponent::SlaveEscapedCRC => match decode_escape(b) {
                None => r.reset(),
                Some(v) => after_slave_crc(r, v),
            },
            TelegramComponent::MasterACK => r.reset(),
        }
    }
}

/// A push parser of eBUS telegrams.
#[derive(Debug)]
pub struct BusReader {
    waiting_for: TelegramComponent,
    packet_buffer: Packet,
}

impl View for BusReader {
    type V = ReaderView;

    closed spec fn view(&self) -> ReaderView {
        ReaderView { waiting_for: self.waiting_for, packet: self.packet_buffer@ }
    }
}

impl BusReader {
    /// A reader that awaits a frame delimiter, with an empty packet.
    pub fn new() -> (r: BusReader)
        ensures
            r@ == (ReaderView { waiting_for: TelegramComponent::SYN, packet: empty_packet() }),
            r@.wf(),
    {
        BusReader { packet_buffer: Packet::new(), waiting_for: TelegramComponent::SYN }
    }

    /// The component that the reader expects next.
    pub fn expected_component(&self) -> (r: TelegramComponent)
        ensures
            r == self@.waiting_for,
    {
        self.waiting_for
    }

    /// The packet read so far.
    pub fn packet(&self) -> (r: &Packet)
        ensures
            r@ == self@.packet,
    {
        &self.packet_buffer
    }

    /// Awaits the next frame delimiter; the packet stays as it is.
    fn reset(&mut self)
        ensures
            final(self)@ == old(self)@.reset(),
    {
        self.waiting_for = TelegramComponent::SYN;
    }

    /// Records the master CRC and decides on the destination's class.
    fn on_master_crc(&mut self, crc: u8)
        ensures
            final(self)@ == after_master_crc(old(self)@, crc),
    {
        self.packet_buffer.master_crc = crc;
        match AddressClass::of(self.packet_buffer.destination) {
            AddressClass::Broadcast | AddressClass::Invalid => self.reset(),
            _ => self.waiting_for = TelegramComponent::SlaveACK,
        }
    }

    /// Records the slave CRC; the master's acknowledgement comes next.
    fn on_slave_crc(&mut self, crc: u8)
        ensures
            final(self)@ == after_slave_crc(old(self)@, crc),
    {
        self.packet_buffer.slave_crc = crc;
        self.waiting_for = TelegramComponent::MasterACK;
    }

    /// Takes in octet `received` of the master payload, whose wire form
    /// `wire` goes into the CRC.
    fn on_master_data(&mut self, wire: u8, received: u8)
        requires
            old(self)@.packet.wf(),
            old(self)@.packet.master_payload.len() < old(self)@.packet.master_payload_length,
        ensures
            final(self)@ == after_master_data(old(self)@, wire, received),
    {
        let remain: usize = self.packet_buffer.master_payload_length as usize - payload_len(
            &self.packet_buffer.master_payload,
        );
        stack_crc(&mut self.packet_buffer.computed_master_crc, wire);
        payload_push(&mut self.packet_buffer.master_payload, received);
        self.waiting_for = if remain <= 1 {
            TelegramComponent::MasterCRC
        } else {
            TelegramComponent::MasterPayload
        };
    }

    /// Takes in octet `received` of the slave payload, whose wire form
    /// `wire` goes into the CRC.
    fn on_slave_data(&mut self, wire: u8, received: u8)
        requires
            old(self)@.packet.wf(),
            old(self)@.packet.slave_payload.len() < old(self)@.packet.slave_payload_length,
        ensures
            final(self)@ == after_slave_data(old(self)@, wire, received),
    {
        let remain: usize = self.packet_buffer.slave_payload_length as usize - payload_len(
            &self.packet_buffer.slave_payload,
        );
        stack_crc(&mut self.packet_buffer.computed_slave_crc, wire);
        payload_push(&mut self.packet_buffer.slave_payload, received);
        self.waiting_for = if remain <= 1 {
            TelegramComponent::SlaveCRC
        } else {
            TelegramComponent::SlavePayload
        };
    }

    /// Whether the master payload still has room for an octet.
    fn master_has_room(&self) -> (r: bool)
        ensures
            r == (self@.packet.master_payload.len() < self@.packet.master_payload_length),
    {
        payload_len(&self.packet_buffer.master_payload)
            < self.packet_buffer.master_payload_length as usize
    }

    /// Whether the slave payload still has room for an octet.
    fn slave_has_room(&self) -> (r: bool)
        ensures
            r == (self@.packet.slave_payload.len() < self@.packet.slave_payload_length),
    {
        payload_len(&self.packet_buffer.slave_payload)
            < self.packet_buffer.slave_payload_length as usize
    }

    /// Feeds one octet of the bus to the reader.
    pub fn read_byte(&mut self, received: u8)
        requires
            old(self)@.wf(),
        ensures
            final(self)@ == step(old(self)@, received),
            final(self)@.wf(),
    {
        if received == EBUS_SYN && match self.waiting_for {
            TelegramComponent::SYN | TelegramComponent::Source => false,
            _ => true,
        } {
            self.waiting_for = TelegramComponent::Source;
            return ;
        }
        match self.waiting_for {
            TelegramComponent::SYN => {
                if received == EBUS_SYN {
                    self.waiting_for = TelegramComponent::Source;
                }
            },
            TelegramComponent::Source => {
                match AddressClass::of(received) {
                    AddressClass::Master(_) => {
                        self.packet_buffer.source = received;
                        self.packet_buffer.computed_master_crc = 0x00;
                        stack_crc(&mut self.packet_buffer.computed_master_crc, received);
                        self.waiting_for = TelegramComponent::Destination;
                    },
                    _ => {
                        if received != EBUS_SYN {
                            self.reset();
                        }
                    },
                }
            },
            TelegramComponent::Destination => {
                match AddressClass::of(received) {
                    AddressClass::Invalid => self.reset(),
                    _ => {
                        self.packet_buffer.destination = received;
                        stack_crc(&mut self.packet_buffer.computed_master_crc, received);
                        self.waiting_for = TelegramComponent::Primary;
                    },
                }
            },
            TelegramComponent::Primary => {
                self.packet_buffer.primary = received;
                stack_crc(&mut self.packet_buffer.computed_master_crc, received);
                self.waiting_for = TelegramComponent::Secondary;
            },
            TelegramComponent::Secondary => {
                self.packet_buffer.secondary = received;
                stack_crc(&mut self.packet_buffer.computed_master_crc, received);
                self.waiting_for = TelegramComponent::MasterPayloadLength;
            },
            TelegramComponent::MasterPayloadLength => {
                if received as usize > MAX_NN {
                    self.reset();
                } else {
                    self.packet_buffer.master_payload_length = received;
                    payload_clear(&mut self.packet_buffer.master_payload);
                    stack_crc(&mut self.packet_buffer.computed_master_crc, received);
                    self.waiting_for = if received == 0 {
                        TelegramComponent::MasterCRC
                    } else {
                        TelegramComponent::MasterPayload
                    };
                }
            },
            TelegramComponent::MasterPayload => {
                if !self.master_has_room() {
                    self.reset();
                } else if received == EBUS_ESCAPE {
                    stack_crc(&mut self.packet_buffer.computed_master_crc, received);
                    self.waiting_for = TelegramComponent::MasterEscapedPayload;
                } else {
                    self.on_master_data(received, received);
                }
            },
            TelegramComponent::MasterEscapedPayload => {
                match escape(received) {
                    None => self.reset(),
                    Some(decoded) => {
                        if !self.master_has_room() {
                            self.reset();
                        } else {
                            self.on_master_data(received, decoded);
                        }
                    },
                }
            },
            TelegramComponent::MasterCRC => {
                if received == EBUS_ESCAPE {
                    self.waiting_for = TelegramComponent::MasterEscapedCRC;
                } else {
                    self.on_master_crc(received);
                }
            },
            TelegramComponent::MasterEscapedCRC => {
                match escape(received) {
                    None => self.reset(),
                    Some(crc) => self.on_master_crc(crc),
                }
            },
            TelegramComponent::SlaveACK => {
                match (received, AddressClass::of(self.packet_buffer.destination)) {
                    (EBUS_ACKOK, AddressClass::Slave)
                    | (EBUS_ACKOK, AddressClass::MasterSlave(_)) => {
                        self.waiting_for = TelegramComponent::SlavePayloadLength;
                    },
                    _ => self.reset(),
                }
            },
            TelegramComponent::SlavePayloadLength => {
                if received as usize > MAX_NN {
                    self.reset();
                } else {
                    self.packet_buffer.slave_payload_length = received;
                    payload_clear(&mut self.packet_buffer.slave_payload);
                    self.packet_buffer.computed_slave_crc = 0x00;
                    stack_crc(&mut self.packet_buffer.computed_slave_crc, received);
                    self.waiting_for = if received == 0 {
                        TelegramComponent::SlaveCRC
                    } else {
                        TelegramComponent::SlavePayload
                    };
                }
            },
            TelegramComponent::SlavePayload => {
                if !self.slave_has_room() {
                    self.reset();
                } else if received == EBUS_ESCAPE {
                    stack_crc(&mut self.packet_buffer.computed_slave_crc, received);
                    self.waiting_for = TelegramComponent::SlaveEscapedPayload;
                } else {
                    self.on_slave_data(received, received);
                }
            },
            TelegramComponent::SlaveEscapedPayload => {
                match escape(received) {
                    None => self.reset(),
                    Some(decoded) => {
                        if !self.slave_has_room() {
                            self.reset();
                        } else {
                            self.on_slave_data(received, decoded);
                        }
                    },
                }
            },
            TelegramComponent::SlaveCRC => {
                if received == EBUS_ESCAPE {
                    self.waiting_for = TelegramComponent::SlaveEscapedCRC;
                } else {
                    self.on_slave_crc(received);
                }
            },
            TelegramComponent::SlaveEscapedCRC => {
                match escape(received) {
                    None => self.reset(),
                    Some(crc) => self.on_slave_crc(crc),
                }
            },
            TelegramComponent::MasterACK => self.reset(),
        }
    }
}

} // verus!
