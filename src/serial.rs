//! The COM1 serial port, used for diagnostics.
//!
//! The functions here decide what to write to the UART's ports; the caller
//! performs the writes in order, waiting before each data byte until the
//! transmitter is empty.
use vstd::prelude::*;
use vstd::string::StringSliceAdditionalSpecFns;
use crate::pic::{port_write, PortWrite};

verus! {

pub const COM1_PORT: u16 = 0x3F8;

/// Byte sent in loopback mode to test the chip.
pub const LOOPBACK_TEST_BYTE: u8 = 0xAE;

/// Set in the line status register when the transmitter can take a byte.
pub const TRANSMIT_EMPTY: u8 = 0x20;

/// Configuration of the UART: interrupts off, 38400 baud, 8 bits, no parity,
/// one stop bit, FIFO on, then loopback mode and the test byte.
pub open spec fn init_writes() -> Seq<PortWrite> {
    seq![
        port_write((COM1_PORT + 1) as u16, 0x00),
        port_write((COM1_PORT + 3) as u16, 0x80),
        port_write(COM1_PORT, 0x03),
        port_write((COM1_PORT + 1) as u16, 0x00),
        port_write((COM1_PORT + 3) as u16, 0x03),
        port_write((COM1_PORT + 2) as u16, 0xC7),
        port_write((COM1_PORT + 4) as u16, 0x0B),
        port_write((COM1_PORT + 4) as u16, 0x1E),
        port_write(COM1_PORT, LOOPBACK_TEST_BYTE),
    ]
}

/// The COM1 port's state: whether it passed its loopback test.
pub struct Serial {
    initialized: bool,
}

impl Serial {
    /// Whether the chip passed its loopback test, so that output is sent.
    pub closed spec fn ready(&self) -> bool {
        self.initialized
    }

    /// A port that sends nothing until initialized.
    pub fn new() -> (r: Self)
        ensures
            !r.ready(),
    {
        Serial { initialized: false }
    }

    /// The writes that configure the UART and start its loopback test; the
    /// caller then reads the data port and hands the byte to `complete_init`.
    pub fn init_sequence() -> (r: Vec<PortWrite>)
        ensures
            r@ == init_writes(),
    {
        let mut r: Vec<PortWrite> = Vec::new();
        r.push(PortWrite { port: COM1_PORT + 1, value: 0x00 });
        r.push(PortWrite { port: COM1_PORT + 3, value: 0x80 });
        r.push(PortWrite { port: COM1_PORT, value: 0x03 });
        r.push(PortWrite { port: COM1_PORT + 1, value: 0x00 });
        r.push(PortWrite { port: COM1_PORT + 3, value: 0x03 });
        r.push(PortWrite { port: COM1_PORT + 2, value: 0xC7 });
        r.push(PortWrite { port: COM1_PORT + 4, value: 0x0B });
        r.push(PortWrite { port: COM1_PORT + 4, value: 0x1E });
        r.push(PortWrite { port: COM1_PORT, value: LOOPBACK_TEST_BYTE });
        assert(r@ =~= init_writes());
        r
    }

    /// Ends initialization with the byte read back in loopback mode. When it
    /// is the test byte the chip works: the port becomes ready and the write
    /// that selects normal operation is returned. Otherwise the port stays as
    /// it was and nothing is to be written.
    pub fn complete_init(&mut self, echoed: u8) -> (r: Option<PortWrite>)
        ensures
            echoed == LOOPBACK_TEST_BYTE ==> final(self).ready() && r == Some(
                port_write((COM1_PORT + 4) as u16, 0x0F),
            ),
            echoed != LOOPBACK_TEST_BYTE ==> final(self).ready() == old(self).ready() && r is None,
    {
        if echoed != LOOPBACK_TEST_BYTE {
            return None;
        }
        self.initialized = true;
        Some(PortWrite { port: COM1_PORT + 4, value: 0x0F })
    }

    /// Whether the line status `line_status` says the transmitter is empty.
    pub fn is_transmit_empty(line_status: u8) -> (r: bool)
        ensures
            r == (line_status & TRANSMIT_EMPTY != 0),
    {
        line_status & TRANSMIT_EMPTY != 0
    }

    /// The writes to the data port that send `s`: its UTF-8 bytes in order,
    /// or nothing while the port is not ready.
    pub fn write_string(&self, s: &str) -> (r: Vec<PortWrite>)
        ensures
            self.ready() ==> r@.len() == s.spec_bytes().len() && forall|i: int|
                0 <= i < r@.len() ==> #[trigger] r@[i] == port_write(COM1_PORT, s.spec_bytes()[i]),
            !self.ready() ==> r@.len() == 0,
    {
        let mut r: Vec<PortWrite> = Vec::new();
        if !self.initialized {
            return r;
        }
        let bytes = s.as_bytes();
        let mut i: usize = 0;
        while i < bytes.len()
            invariant
                bytes@ == s.spec_bytes(),
                i <= bytes@.len(),
                r@.len() == i,
                forall|k: int| 0 <= k < i ==> #[trigger] r@[k] == port_write(COM1_PORT, bytes@[k]),
            decreases bytes@.len() - i,
        {
            r.push(PortWrite { port: COM1_PORT, value: bytes[i] });
            i += 1;
        }
        r
    }
}

} // verus!
