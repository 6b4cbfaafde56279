//! Programming of the two cascaded legacy interrupt controllers.
//!
//! The controllers are driven through I/O ports. The functions here decide
//! what to write and in which order; the caller performs the writes, in the
//! order given.
use vstd::prelude::*;

verus! {

pub const PIC1_COMMAND: u16 = 0x20;
pub const PIC1_DATA: u16 = 0x21;
pub const PIC2_COMMAND: u16 = 0xA0;
pub const PIC2_DATA: u16 = 0xA1;

/// Start of initialization; a fourth initialization word follows.
pub const ICW1_INIT: u8 = 0x11;
/// 8086 mode.
pub const ICW4_8086: u8 = 0x01;
/// End-of-interrupt command.
pub const PIC_EOI: u8 = 0x20;

/// Vector of IRQ 0, just above the 32 vectors of CPU exceptions.
pub const PIC1_OFFSET: u8 = 32;
/// Vector of IRQ 8, right after the primary controller's eight.
pub const PIC2_OFFSET: u8 = 40;

/// Tells the primary controller that the secondary sits on its line 2.
pub const CASCADE_PRIMARY: u8 = 4;
/// Tells the secondary controller its cascade identity.
pub const CASCADE_SECONDARY: u8 = 2;

/// An unused port; writing to it gives the controllers time to settle.
pub const IO_WAIT_PORT: u16 = 0x80;

/// One byte written to one I/O port.
#[derive(Clone, Copy, Debug, PartialEq, Eq, Structural)]
pub struct PortWrite {
    pub port: u16,
    pub value: u8,
}

pub open spec fn port_write(port: u16, value: u8) -> PortWrite {
    PortWrite { port, value }
}

/// A write followed by the settling delay.
pub open spec fn write_wait(port: u16, value: u8) -> Seq<PortWrite> {
    seq![port_write(port, value), port_write(IO_WAIT_PORT, 0)]
}

/// The re-initialization: start both controllers, give them their vector
/// offsets, wire the cascade, select 8086 mode, then restore the masks
/// `mask1` and `mask2` read before.
pub open spec fn init_writes(mask1: u8, mask2: u8) -> Seq<PortWrite> {
    write_wait(PIC1_COMMAND, ICW1_INIT) + write_wait(PIC2_COMMAND, ICW1_INIT) + write_wait(
        PIC1_DATA,
        PIC1_OFFSET,
    ) + write_wait(PIC2_DATA, PIC2_OFFSET) + write_wait(PIC1_DATA, CASCADE_PRIMARY) + write_wait(
        PIC2_DATA,
        CASCADE_SECONDARY,
    ) + write_wait(PIC1_DATA, ICW4_8086) + write_wait(PIC2_DATA, ICW4_8086) + seq![
        port_write(PIC1_DATA, mask1),
        port_write(PIC2_DATA, mask2),
    ]
}

/// Whether bit `j` of `v` is set.
pub open spec fn bit(v: u8, j: u8) -> bool {
    (v >> j) & 1u8 == 1u8
}

fn push_write_wait(writes: &mut Vec<PortWrite>, port: u16, value: u8)
    ensures
        final(writes)@ == old(writes)@ + write_wait(port, value),
{
    writes.push(PortWrite { port, value });
    writes.push(PortWrite { port: IO_WAIT_PORT, value: 0 });
    assert(final(writes)@ =~= old(writes)@ + write_wait(port, value));
}

/// The port writes that re-initialize the controllers, given the masks
/// `mask1` (primary) and `mask2` (secondary) read from their data ports
/// beforehand.
pub fn init_sequence(mask1: u8, mask2: u8) -> (r: Vec<PortWrite>)
    ensures
        r@ == init_writes(mask1, mask2),
{
    let mut r: Vec<PortWrite> = Vec::new();
    push_write_wait(&mut r, PIC1_COMMAND, ICW1_INIT);
    push_write_wait(&mut r, PIC2_COMMAND, ICW1_INIT);
    push_write_wait(&mut r, PIC1_DATA, PIC1_OFFSET);
    push_write_wait(&mut r, PIC2_DATA, PIC2_OFFSET);
    push_write_wait(&mut r, PIC1_DATA, CASCADE_PRIMARY);
    push_write_wait(&mut r, PIC2_DATA, CASCADE_SECONDARY);
    push_write_wait(&mut r, PIC1_DATA, ICW4_8086);
    push_write_wait(&mut r, PIC2_DATA, ICW4_8086);
    r.push(PortWrite { port: PIC1_DATA, value: mask1 });
    r.push(PortWrite { port: PIC2_DATA, value: mask2 });
    assert(r@ =~= init_writes(mask1, mask2));
    r
}

/// Vector that IRQ line `irq` raises once the controllers are initialized.
pub fn irq_vector(irq: u8) -> (r: u8)
    requires
        irq < 16,
    ensures
        r == PIC1_OFFSET + irq,
        r >= 32,
{
    if irq < 8 {
        PIC1_OFFSET + irq
    } else {
        PIC2_OFFSET + (irq - 8)
    }
}

/// Data port of the controller that owns IRQ line `irq`: lines 0 to 7 the
/// primary, the others the secondary.
pub fn mask_port(irq: u8) -> (r: u16)
    ensures
        r == if irq < 8 {
            PIC1_DATA
        } else {
            PIC2_DATA
        },
{
    if irq < 8 {
        PIC1_DATA
    } else {
        PIC2_DATA
    }
}

proof fn lemma_clear_bit(mask: u8, k: u8)
    by (bit_vector)
    requires
        k < 8,
    ensures
        forall|j: u8|
            j < 8 ==> #[trigger] bit(mask & !(1u8 << k), j) == (j != k && bit(mask, j)),
{
}

proof fn lemma_set_bit(mask: u8, k: u8)
    by (bit_vector)
    requires
        k < 8,
    ensures
        forall|j: u8|
            j < 8 ==> #[trigger] bit(mask | (1u8 << k), j) == (j == k || bit(mask, j)),
{
}

/// The mask with IRQ line `irq` unmasked (its bit, `irq % 8`, cleared) and
/// every other line as it was.
pub fn enable_irq_mask(mask: u8, irq: u8) -> (r: u8)
    ensures
        forall|j: u8| j < 8 ==> #[trigger] bit(r, j) == (j != irq % 8 && bit(mask, j)),
{
    let k = irq % 8;
    proof {
        lemma_clear_bit(mask, k);
    }
    mask & !(1u8 << k)
}

/// The mask with IRQ line `irq` masked (its bit, `irq % 8`, set) and every
/// other line as it was.
pub fn disable_irq_mask(mask: u8, irq: u8) -> (r: u8)
    ensures
        forall|j: u8| j < 8 ==> #[trigger] bit(r, j) == (j == irq % 8 || bit(mask, j)),
{
    let k = irq % 8;
    proof {
        lemma_set_bit(mask, k);
    }
    mask | (1u8 << k)
}

/// The end-of-interrupt writes for IRQ line `irq`: to the secondary
/// controller first when it owns the line, then always to the primary.
pub fn eoi_sequence(irq: u8) -> (r: Vec<PortWrite>)
    ensures
        r@ == if irq >= 8 {
            seq![port_write(PIC2_COMMAND, PIC_EOI), port_write(PIC1_COMMAND, PIC_EOI)]
        } else {
            seq![port_write(PIC1_COMMAND, PIC_EOI)]
        },
{
    let mut r: Vec<PortWrite> = Vec::new();
    if irq >= 8 {
        r.push(PortWrite { port: PIC2_COMMAND, value: PIC_EOI });
    }
    r.push(PortWrite { port: PIC1_COMMAND, value: PIC_EOI });
    proof {
        if irq >= 8 {
            assert(r@ =~= seq![port_write(PIC2_COMMAND, PIC_EOI), port_write(PIC1_COMMAND, PIC_EOI)]);
        } else {
            assert(r@ =~= seq![port_write(PIC1_COMMAND, PIC_EOI)]);
        }
    }
    r
}

/// The writes that mask every line of both controllers.
pub fn disable_all_sequence() -> (r: Vec<PortWrite>)
    ensures
        r@ == seq![port_write(PIC1_DATA, 0xFF), port_write(PIC2_DATA, 0xFF)],
{
    let mut r: Vec<PortWrite> = Vec::new();
    r.push(PortWrite { port: PIC1_DATA, value: 0xFF });
    r.push(PortWrite { port: PIC2_DATA, value: 0xFF });
    assert(r@ =~= seq![port_write(PIC1_DATA, 0xFF), port_write(PIC2_DATA, 0xFF)]);
    r
}

} // verus!
