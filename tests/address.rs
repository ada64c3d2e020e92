use rebus_core::layer2::address::AddressClass;
use rebus_core::layer2::{EBUS_ESCAPE, EBUS_SYN};

#[test]
fn master_addr_is_recognized() {
    let c = AddressClass::of(0x0F);
    assert_eq!(c, AddressClass::Master(4));
}

#[test]
fn master_slave_addr_is_recognized() {
    let c = AddressClass::of(0x15);
    assert_eq!(c, AddressClass::MasterSlave(0x10));
}

#[test]
fn slave_addr_is_recognized() {
    let c = AddressClass::of(0x20);
    assert_eq!(c, AddressClass::Slave);
}

#[test]
fn invalid_addr_is_recognized() {
    assert_eq!(AddressClass::of(EBUS_SYN), AddressClass::Invalid);
    assert_eq!(AddressClass::of(EBUS_ESCAPE), AddressClass::Invalid);
}
