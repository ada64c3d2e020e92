//! Classification of bus addresses.
use vstd::prelude::*;

use super::{EBUS_ESCAPE, EBUS_SYN};

verus! {

/// Address of a broadcast telegram.
pub const BROADCAST_ADDRESS: u8 = 0xfe;

/// Distance between a master address and the slave address it answers on.
pub const MASTER_SLAVE_OFFSET: u8 = 5;

/// The nibbles that may make up a master address: 0x0, 0x1, 0x3, 0x7, 0xF.
pub open spec fn is_master_nibble(n: u8) -> bool {
    n == 0x0 || n == 0x1 || n == 0x3 || n == 0x7 || n == 0xf
}

/// Position of a master nibble in the sequence 0x0, 0x1, 0x3, 0x7, 0xF.
pub open spec fn master_nibble_index(n: u8) -> u8
    recommends
        is_master_nibble(n),
{
    if n == 0x0 {
        0
    } else if n == 0x1 {
        1
    } else if n == 0x3 {
        2
    } else if n == 0x7 {
        3
    } else {
        4
    }
}

/// Both nibbles of `c` are master nibbles.
pub open spec fn has_master_nibbles(c: u8) -> bool {
    is_master_nibble(c >> 4) && is_master_nibble(c & 0x0f)
}

/// The class of a bus address.
#[derive(Clone, Copy, PartialEq, Eq, Structural, Debug)]
pub enum AddressClass {
    /// A master address, with the priority given by its low nibble.
    Master(u8),
    /// The slave address of the master whose address is carried.
    MasterSlave(u8),
    Slave,
    Broadcast,
    Invalid,
}

/// The address five below `c`, wrapping around below zero.
pub open spec fn master_of_slave(c: u8) -> u8 {
    ((c + 256 - MASTER_SLAVE_OFFSET) % 256) as u8
}

/// Whether `c` classifies as a master address.
pub open spec fn is_master_address(c: u8) -> bool {
    c != EBUS_SYN && c != EBUS_ESCAPE && c != BROADCAST_ADDRESS && has_master_nibbles(c)
}

/// The class of an address octet.
pub open spec fn class_of(c: u8) -> AddressClass {
    if c == EBUS_SYN || c == EBUS_ESCAPE {
        AddressClass::Invalid
    } else if c == BROADCAST_ADDRESS {
        AddressClass::Broadcast
    } else if has_master_nibbles(c) {
        AddressClass::Master(master_nibble_index(c & 0x0f))
    } else if is_master_address(master_of_slave(c)) {
        AddressClass::MasterSlave(master_of_slave(c))
    } else {
        AddressClass::Slave
    }
}

fn nibble_position(n: u8) -> (r: Option<u8>)
    ensures
        r == (if is_master_nibble(n) { Some(master_nibble_index(n)) } else { None::<u8> }),
{
    match n {
        0x0 => Some(0),
        0x1 => Some(1),
        0x3 => Some(2),
        0x7 => Some(3),
        0xf => Some(4),
        _ => None,
    }
}

/// The master priority of `c`, if both of its nibbles are master nibbles.
fn master_priority(c: u8) -> (r: Option<u8>)
    ensures
        r == (if has_master_nibbles(c) { Some(master_nibble_index(c & 0x0f)) } else { None::<u8> }),
{
    match nibble_position(c >> 4) {
        None => None,
        Some(_) => nibble_position(c & 0x0f),
    }
}

impl AddressClass {
    /// Classifies an address octet.
    pub fn of(c: u8) -> (r: AddressClass)
        ensures
            r == class_of(c),
    {
        if c == EBUS_SYN || c == EBUS_ESCAPE {
            return AddressClass::Invalid;
        }
        if c == BROADCAST_ADDRESS {
            return AddressClass::Broadcast;
        }
        match master_priority(c) {
            Some(p) => AddressClass::Master(p),
            None => {
                let m: u8 = c.wrapping_sub(MASTER_SLAVE_OFFSET);
                let m_is_master = m != EBUS_SYN && m != EBUS_ESCAPE && m != BROADCAST_ADDRESS
                    && master_priority(m).is_some();
                if m_is_master {
                    AddressClass::MasterSlave(m)
                } else {
                    AddressClass::Slave
                }
            },
        }
    }
}

/// Only the two sentinels are invalid addresses, and only 0xFE is the
/// broadcast address.
pub proof fn lemma_reserved_addresses(c: u8)
    ensures
        (class_of(c) == AddressClass::Invalid) <==> (c == EBUS_SYN || c == EBUS_ESCAPE),
        (class_of(c) == AddressClass::Broadcast) <==> (c == BROADCAST_ADDRESS),
{
}

/// An address is a master address exactly when both of its nibbles are
/// master nibbles; its priority is the position of the low nibble among them.
pub proof fn lemma_master_addresses(c: u8)
    ensures
        (class_of(c) is Master) <==> has_master_nibbles(c),
        has_master_nibbles(c) ==> class_of(c) == AddressClass::Master(
            master_nibble_index(c & 0x0f),
        ),
{
    assert(!has_master_nibbles(EBUS_SYN) && !has_master_nibbles(EBUS_ESCAPE)
        && !has_master_nibbles(BROADCAST_ADDRESS)) by (bit_vector);
}

/// Five above a master address (modulo 256) lies the master-slave address
/// of that master.
pub proof fn lemma_master_slave_address(m: u8)
    requires
        class_of(m) is Master,
    ensures
        class_of(((m + MASTER_SLAVE_OFFSET) % 256) as u8) == AddressClass::MasterSlave(m),
{
    lemma_master_addresses(m);
    let c = ((m + MASTER_SLAVE_OFFSET) % 256) as u8;
    assert(has_master_nibbles(m) ==> (c != EBUS_SYN && c != EBUS_ESCAPE && c
        != BROADCAST_ADDRESS && !has_master_nibbles(c))) by (bit_vector)
        requires
            c == ((m + 5) % 256) as u8,
    ;
    assert(master_of_slave(c) == m) by (bit_vector)
        requires
            c == ((m + 5) % 256) as u8,
    ;
    assert(!has_master_nibbles(EBUS_SYN) && !has_master_nibbles(EBUS_ESCAPE)
        && !has_master_nibbles(BROADCAST_ADDRESS)) by (bit_vector);
}

} // verus!
