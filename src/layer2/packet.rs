//! The record that holds the fields of the telegram being read.
use arrayvec::ArrayVec;
use vstd::prelude::*;

use super::MAX_NN;
use super::payload::{payload_items, payload_new, payload_slice};

verus! {

/// The fields of a telegram, as mathematical values.
pub ghost struct PacketView {
    pub source: u8,
    pub destination: u8,
    pub primary: u8,
    pub secondary: u8,
    pub master_payload_length: u8,
    pub master_payload: Seq<u8>,
    pub computed_master_crc: u8,
    pub master_crc: u8,
    pub slave_payload_length: u8,
    pub slave_payload: Seq<u8>,
    pub computed_slave_crc: u8,
    pub slave_crc: u8,
}

impl PacketView {
    /// Each payload holds no more octets than its announced length, and no
    /// announced length exceeds the cap.
    pub open spec fn wf(self) -> bool {
        &&& self.master_payload.len() <= self.master_payload_length <= MAX_NN
        &&& self.slave_payload.len() <= self.slave_payload_length <= MAX_NN
    }
}

/// The fields accumulated while a telegram is read.
#[derive(Debug)]
pub struct Packet {
    pub(crate) source: u8,
    pub(crate) destination: u8,
    pub(crate) primary: u8,
    pub(crate) secondary: u8,
    pub(crate) master_payload_length: u8,
    pub(crate) master_payload: ArrayVec<u8, MAX_NN>,
    pub(crate) computed_master_crc: u8,
    pub(crate) master_crc: u8,
    pub(crate) slave_payload_length: u8,
    pub(crate) slave_payload: ArrayVec<u8, MAX_NN>,
    pub(crate) computed_slave_crc: u8,
    pub(crate) slave_crc: u8,
}

impl View for Packet {
    type V = PacketView;

    open(crate) spec fn view(&self) -> PacketView {
        PacketView {
            source: self.source,
            destination: self.destination,
            primary: self.primary,
            secondary: self.secondary,
            master_payload_length: self.master_payload_length,
            master_payload: payload_items(self.master_payload),
            computed_master_crc: self.computed_master_crc,
            master_crc: self.master_crc,
            slave_payload_length: self.slave_payload_length,
            slave_payload: payload_items(self.slave_payload),
            computed_slave_crc: self.computed_slave_crc,
            slave_crc: self.slave_crc,
        }
    }
}

/// The view of a packet whose fields are all zero and whose payloads are empty.
pub open spec fn empty_packet() -> PacketView {
    PacketView {
        source: 0,
        destination: 0,
        primary: 0,
        secondary: 0,
        master_payload_length: 0,
        master_payload: Seq::empty(),
        computed_master_crc: 0,
        master_crc: 0,
        slave_payload_length: 0,
        slave_payload: Seq::empty(),
        computed_slave_crc: 0,
        slave_crc: 0,
    }
}

impl Packet {
    /// A packet with every field zero and both payloads empty.
    pub fn new() -> (r: Packet)
        ensures
            r@ == empty_packet(),
    {
        Packet {
            source: 0,
            destination: 0,
            primary: 0,
            secondary: 0,
            master_payload_length: 0,
            master_payload: payload_new(),
            computed_master_crc: 0,
            master_crc: 0,
            slave_payload_length: 0,
            slave_payload: payload_new(),
            computed_slave_crc: 0,
            slave_crc: 0,
        }
    }

    /// The source address.
    pub fn source(&self) -> (r: u8)
        ensures
            r == self@.source,
    {
        self.source
    }

    /// The destination address.
    pub fn destination(&self) -> (r: u8)
        ensures
            r == self@.destination,
    {
        self.destination
    }

    /// The primary service code.
    pub fn primary(&self) -> (r: u8)
        ensures
            r == self@.primary,
    {
        self.primary
    }

    /// The secondary service code.
    pub fn secondary(&self) -> (r: u8)
        ensures
            r == self@.secondary,
    {
        self.secondary
    }

    /// The announced length of the master payload.
    pub fn master_payload_length(&self) -> (r: u8)
        ensures
            r == self@.master_payload_length,
    {
        self.master_payload_length
    }

    /// The CRC computed over the master part as received.
    pub fn computed_master_crc(&self) -> (r: u8)
        ensures
            r == self@.computed_master_crc,
    {
        self.computed_master_crc
    }

    /// The master CRC as received, escape decoded.
    pub fn master_crc(&self) -> (r: u8)
        ensures
            r == self@.master_crc,
    {
        self.master_crc
    }

    /// The announced length of the slave payload.
    pub fn slave_payload_length(&self) -> (r: u8)
        ensures
            r == self@.slave_payload_length,
    {
        self.slave_payload_length
    }

    /// The CRC computed over the slave part as received.
    pub fn computed_slave_crc(&self) -> (r: u8)
        ensures
            r == self@.computed_slave_crc,
    {
        self.computed_slave_crc
    }

    /// The slave CRC as received, escape decoded.
    pub fn slave_crc(&self) -> (r: u8)
        ensures
            r == self@.slave_crc,
    {
        self.slave_crc
    }

    /// The octets of the master payload, escape decoded.
    pub fn master_payload(&self) -> (r: &[u8])
        ensures
            r@ == self@.master_payload,
    {
        payload_slice(&self.master_payload)
    }

    /// The octets of the slave payload, escape decoded.
    pub fn slave_payload(&self) -> (r: &[u8])
        ensures
            r@ == self@.slave_payload,
    {
        payload_slice(&self.slave_payload)
    }
}

} // verus!
