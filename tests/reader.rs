use rebus_core::layer2::reader::BusReader;
use rebus_core::layer2::{TelegramComponent, EBUS_ACKOK, EBUS_ESCAPE, EBUS_SYN};

#[test]
fn busreader_when_broadcast() {
    let mut bus_reader = BusReader::new();
    assert_eq!(bus_reader.expected_component(), TelegramComponent::SYN);

    bus_reader.read_byte(EBUS_SYN);
    assert_eq!(bus_reader.expected_component(), TelegramComponent::Source);
    bus_reader.read_byte(0xf1);
    assert_eq!(bus_reader.expected_component(), TelegramComponent::Destination);
    bus_reader.read_byte(0xfe);

    assert_eq!(bus_reader.expected_component(), TelegramComponent::Primary);
    bus_reader.read_byte(0x08);
    assert_eq!(bus_reader.expected_component(), TelegramComponent::Secondary);
    bus_reader.read_byte(0x00);

    assert_eq!(bus_reader.expected_component(), TelegramComponent::MasterPayloadLength);
    bus_reader.read_byte(0x08);

    assert_eq!(bus_reader.expected_component(), TelegramComponent::MasterPayload);
    bus_reader.read_byte(0x00);
    assert_eq!(bus_reader.expected_component(), TelegramComponent::MasterPayload);
    bus_reader.read_byte(0x05);
    assert_eq!(bus_reader.expected_component(), TelegramComponent::MasterPayload);
    bus_reader.read_byte(0x80);
    assert_eq!(bus_reader.expected_component(), TelegramComponent::MasterPayload);
    bus_reader.read_byte(0x09);
    assert_eq!(bus_reader.expected_component(), TelegramComponent::MasterPayload);
    bus_reader.read_byte(0x00);
    assert_eq!(bus_reader.expected_component(), TelegramComponent::MasterPayload);
    bus_reader.read_byte(0x20);
    assert_eq!(bus_reader.expected_component(), TelegramComponent::MasterPayload);
    bus_reader.read_byte(0x00);
    assert_eq!(bus_reader.expected_component(), TelegramComponent::MasterPayload);
    bus_reader.read_byte(0x37);

    assert_eq!(bus_reader.expected_component(), TelegramComponent::MasterCRC);
    assert_eq!(bus_reader.packet().computed_master_crc(), 0xe5);
    bus_reader.read_byte(0xe5);

    assert_eq!(bus_reader.expected_component(), TelegramComponent::SYN);
}

#[test]
fn busreader_when_master2master() {
    let mut bus_reader = BusReader::new();
    assert_eq!(bus_reader.expected_component(), TelegramComponent::SYN);

    bus_reader.read_byte(EBUS_SYN);
    assert_eq!(bus_reader.expected_component(), TelegramComponent::Source);
    bus_reader.read_byte(0x10);
    assert_eq!(bus_reader.expected_component(), TelegramComponent::Destination);
    bus_reader.read_byte(0x03);

    assert_eq!(bus_reader.expected_component(), TelegramComponent::Primary);
    bus_reader.read_byte(0x08);
    assert_eq!(bus_reader.expected_component(), TelegramComponent::Secondary);
    bus_reader.read_byte(0x00);

    assert_eq!(bus_reader.expected_component(), TelegramComponent::MasterPayloadLength);
    bus_reader.read_byte(0x08);

    assert_eq!(bus_reader.expected_component(), TelegramComponent::MasterPayload);
    bus_reader.read_byte(0x00);
    assert_eq!(bus_reader.expected_component(), TelegramComponent::MasterPayload);
    bus_reader.read_byte(0x05);
    assert_eq!(bus_reader.expected_component(), TelegramComponent::MasterPayload);
    bus_reader.read_byte(0x80);
    assert_eq!(bus_reader.expected_component(), TelegramComponent::MasterPayload);
    bus_reader.read_byte(0x09);
    assert_eq!(bus_reader.expected_component(), TelegramComponent::MasterPayload);
    bus_reader.read_byte(0x80);
    assert_eq!(bus_reader.expected_component(), TelegramComponent::MasterPayload);
    bus_reader.read_byte(0x00);
    assert_eq!(bus_reader.expected_component(), TelegramComponent::MasterPayload);
    bus_reader.read_byte(0x00);
    assert_eq!(bus_reader.expected_component(), TelegramComponent::MasterPayload);
    bus_reader.read_byte(0x37);

    assert_eq!(bus_reader.expected_component(), TelegramComponent::MasterCRC);
    assert_eq!(bus_reader.packet().computed_master_crc(), 0xf0);
    bus_reader.read_byte(0xf0);

    assert_eq!(bus_reader.expected_component(), TelegramComponent::SlaveACK);
    bus_reader.read_byte(EBUS_ACKOK);

    assert_eq!(bus_reader.expected_component(), TelegramComponent::SYN);
}

#[test]
fn bus_reader_when_escaped() {
    let mut bus_reader = BusReader::new();
    assert_eq!(bus_reader.expected_component(), TelegramComponent::SYN);

    bus_reader.read_byte(EBUS_SYN);
    assert_eq!(bus_reader.expected_component(), TelegramComponent::Source);
    bus_reader.read_byte(0x31);
    assert_eq!(bus_reader.expected_component(), TelegramComponent::Destination);
    bus_reader.read_byte(0xf6);

    assert_eq!(bus_reader.expected_component(), TelegramComponent::Primary);
    bus_reader.read_byte(0x50);
    assert_eq!(bus_reader.expected_component(), TelegramComponent::Secondary);
    bus_reader.read_byte(0x22);

    assert_eq!(bus_reader.expected_component(), TelegramComponent::MasterPayloadLength);
    bus_reader.read_byte(0x03);

    assert_eq!(bus_reader.expected_component(), TelegramComponent::MasterPayload);
    bus_reader.read_byte(EBUS_ESCAPE);
    assert_eq!(bus_reader.expected_component(), TelegramComponent::MasterEscapedPayload);
    bus_reader.read_byte(0x00);
    assert_eq!(bus_reader.expected_component(), TelegramComponent::MasterPayload);
    bus_reader.read_byte(EBUS_ESCAPE);
    assert_eq!(bus_reader.expected_component(), TelegramComponent::MasterEscapedPayload);
    bus_reader.read_byte(0x01);
    assert_eq!(bus_reader.expected_component(), TelegramComponent::MasterPayload);

    bus_reader.read_byte(0xf3);
    assert_eq!(bus_reader.expected_component(), TelegramComponent::MasterCRC);
    assert_eq!(bus_reader.packet().computed_master_crc(), 0xa9);

    bus_reader.read_byte(EBUS_ESCAPE);
    assert_eq!(bus_reader.expected_component(), TelegramComponent::MasterEscapedCRC);
    bus_reader.read_byte(0x00);
    assert_eq!(bus_reader.packet().master_crc(), EBUS_ESCAPE);

    assert_eq!(bus_reader.expected_component(), TelegramComponent::SlaveACK);
}

#[test]
fn busreader_when_master2slave() {
    // >31f6502203ec110087<0002bd0032>00
    let mut bus_reader = BusReader::new();
    assert_eq!(bus_reader.expected_component(), TelegramComponent::SYN);

    bus_reader.read_byte(EBUS_SYN);
    assert_eq!(bus_reader.expected_component(), TelegramComponent::Source);
    bus_reader.read_byte(0x31);
    assert_eq!(bus_reader.expected_component(), TelegramComponent::Destination);
    bus_reader.read_byte(0xf6);

    assert_eq!(bus_reader.expected_component(), TelegramComponent::Primary);
    bus_reader.read_byte(0x50);
    assert_eq!(bus_reader.expected_component(), TelegramComponent::Secondary);
    bus_reader.read_byte(0x22);

    assert_eq!(bus_reader.expected_component(), TelegramComponent::MasterPayloadLength);
    bus_reader.read_byte(0x03);

    assert_eq!(bus_reader.expected_component(), TelegramComponent::MasterPayload);
    bus_reader.read_byte(0xec);
    assert_eq!(bus_reader.expected_component(), TelegramComponent::MasterPayload);
    bus_reader.read_byte(0x11);
    assert_eq!(bus_reader.expected_component(), TelegramComponent::MasterPayload);
    bus_reader.read_byte(0x00);

    assert_eq!(bus_reader.expected_component(), TelegramComponent::MasterCRC);
    assert_eq!(bus_reader.packet().computed_master_crc(), 0x87);
    bus_reader.read_byte(0x87);

    assert_eq!(bus_reader.expected_component(), TelegramComponent::SlaveACK);
    bus_reader.read_byte(EBUS_ACKOK);

    assert_eq!(bus_reader.expected_component(), TelegramComponent::SlavePayloadLength);
    bus_reader.read_byte(0x02);

    assert_eq!(bus_reader.expected_component(), TelegramComponent::SlavePayload);
    bus_reader.read_byte(0xbd);
    assert_eq!(bus_reader.expected_component(), TelegramComponent::SlavePayload);
    bus_reader.read_byte(0x00);

    assert_eq!(bus_reader.expected_component(), TelegramComponent::SlaveCRC);
    assert_eq!(bus_reader.packet().computed_slave_crc(), 0x32);
    bus_reader.read_byte(0x32);

    assert_eq!(bus_reader.expected_component(), TelegramComponent::MasterACK);
    bus_reader.read_byte(EBUS_ACKOK);

    assert_eq!(bus_reader.expected_component(), TelegramComponent::SYN);
}
