use wflos_boot::pic::PortWrite;
use wflos_boot::serial::{Serial, COM1_PORT, LOOPBACK_TEST_BYTE};

#[test]
fn serial_setup_sequence() {
    let writes = Serial::init_sequence();
    let expected: Vec<PortWrite> = [
        (0x3F9, 0x00), (0x3FB, 0x80), (0x3F8, 0x03), (0x3F9, 0x00), (0x3FB, 0x03),
        (0x3FA, 0xC7), (0x3FC, 0x0B), (0x3FC, 0x1E), (0x3F8, 0xAE),
    ]
    .iter()
    .map(|&(port, value)| PortWrite { port, value })
    .collect();
    assert_eq!(writes, expected);
}

#[test]
fn faulty_chip_stays_silent() {
    let mut serial = Serial::new();
    assert!(serial.write_string("boot").is_empty());
    assert_eq!(serial.complete_init(0x00), None);
    assert!(serial.write_string("boot").is_empty());
}

#[test]
fn working_chip_sends_bytes() {
    let mut serial = Serial::new();
    assert_eq!(serial.complete_init(LOOPBACK_TEST_BYTE), Some(PortWrite { port: 0x3FC, value: 0x0F }));
    let writes = serial.write_string("ok\n");
    assert_eq!(
        writes,
        vec![
            PortWrite { port: COM1_PORT, value: b'o' },
            PortWrite { port: COM1_PORT, value: b'k' },
            PortWrite { port: COM1_PORT, value: b'\n' },
        ]
    );
    assert!(Serial::is_transmit_empty(0x60));
    assert!(!Serial::is_transmit_empty(0x01));
}
