//! Interrupt descriptor table.
//!
//! 256 gate descriptors of 16 bytes, one per vector. A vector with no handler
//! holds the null descriptor (not present), so an unexpected interrupt faults
//! instead of jumping somewhere undefined.
use vstd::prelude::*;
use crate::gdt::{le16, le32, DescriptorTablePointer, KERNEL_CODE_SELECTOR};

verus! {

/// Number of vectors.
pub const IDT_ENTRIES: usize = 256;

/// Type and attributes of an installed gate: present, ring 0, 64-bit
/// interrupt gate.
pub const INTERRUPT_GATE: u8 = 0x8E;

/// Bytes of an interrupt gate to entry point `entry`: kernel code segment,
/// current stack, present, ring 0.
pub open spec fn gate_bytes(entry: u64) -> Seq<u8> {
    let handler = entry as int;
    le16(handler % 0x1_0000) + le16(KERNEL_CODE_SELECTOR as int) + seq![0u8, INTERRUPT_GATE] + le16(
        (handler / 0x1_0000) % 0x1_0000,
    ) + le32(handler / 0x1_0000_0000) + le32(0)
}

/// Bytes of the null gate.
pub open spec fn null_gate_bytes() -> Seq<u8> {
    Seq::new(16, |i: int| 0u8)
}

/// One gate descriptor. In memory it is, in order: handler address bits
/// 0..16, code segment selector, interrupt-stack-table index, type and
/// attributes, address bits 16..32, address bits 32..64, 32 reserved zero
/// bits; multi-byte fields are little-endian.
#[derive(Clone, Copy, Debug, PartialEq, Eq, Structural)]
pub struct IdtEntry {
    offset_low: u16,
    selector: u16,
    ist: u8,
    type_attr: u8,
    offset_mid: u16,
    offset_high: u32,
    reserved: u32,
}

impl View for IdtEntry {
    type V = Seq<u8>;

    /// The sixteen bytes of the descriptor, in memory order.
    closed spec fn view(&self) -> Seq<u8> {
        le16(self.offset_low as int) + le16(self.selector as int) + seq![self.ist, self.type_attr]
            + le16(self.offset_mid as int) + le32(self.offset_high as int) + le32(
            self.reserved as int,
        )
    }
}

impl IdtEntry {
    /// The handler address that the three offset fields spell.
    pub closed spec fn handler(self) -> int {
        self.offset_low + self.offset_mid * 0x1_0000 + self.offset_high * 0x1_0000_0000
    }

    /// The null descriptor: not present, all bytes zero.
    pub fn null() -> (r: Self)
        ensures
            r@ == null_gate_bytes(),
    {
        let r = IdtEntry {
            offset_low: 0,
            selector: 0,
            ist: 0,
            type_attr: 0,
            offset_mid: 0,
            offset_high: 0,
            reserved: 0,
        };
        assert(r@ =~= null_gate_bytes());
        r
    }

    /// An interrupt gate to entry point `handler`.
    pub fn new(handler: usize) -> (r: Self)
        ensures
            r@ == gate_bytes(handler as u64),
            r.handler() == handler,
    {
        let h = handler as u64;
        let r = IdtEntry {
            offset_low: (h & 0xFFFF) as u16,
            selector: KERNEL_CODE_SELECTOR,
            ist: 0,
            type_attr: INTERRUPT_GATE,
            offset_mid: ((h >> 16) & 0xFFFF) as u16,
            offset_high: ((h >> 32) & 0xFFFF_FFFF) as u32,
            reserved: 0,
        };
        assert((h & 0xFFFF) as u16 == h % 0x1_0000) by (bit_vector);
        assert(((h >> 16) & 0xFFFF) as u16 == (h / 0x1_0000) % 0x1_0000) by (bit_vector);
        assert(((h >> 32) & 0xFFFF_FFFF) as u32 == h / 0x1_0000_0000) by (bit_vector);
        assert(r@ =~= gate_bytes(h));
        assert(h == h % 0x1_0000 + ((h / 0x1_0000) % 0x1_0000) * 0x1_0000 + (h / 0x1_0000_0000)
            * 0x1_0000_0000) by (bit_vector);
        r
    }

    /// The handler address held in the descriptor.
    pub fn handler_address(&self) -> (r: u64)
        ensures
            r == self.handler(),
    {
        assert(self.offset_low + self.offset_mid * 0x1_0000 + self.offset_high * 0x1_0000_0000
            <= u64::MAX) by (nonlinear_arith);
        self.offset_low as u64 + (self.offset_mid as u64) * 0x1_0000 + (self.offset_high as u64)
            * 0x1_0000_0000
    }

    /// The descriptor as it is laid out in memory.
    pub fn to_bytes(&self) -> (r: [u8; 16])
        ensures
            r@ == self@,
    {
        let r = [
            (self.offset_low % 0x100) as u8,
            (self.offset_low / 0x100) as u8,
            (self.selector % 0x100) as u8,
            (self.selector / 0x100) as u8,
            self.ist,
            self.type_attr,
            (self.offset_mid % 0x100) as u8,
            (self.offset_mid / 0x100) as u8,
            (self.offset_high % 0x100) as u8,
            ((self.offset_high / 0x100) % 0x100) as u8,
            ((self.offset_high / 0x1_0000) % 0x100) as u8,
            ((self.offset_high / 0x100_0000) % 0x100) as u8,
            (self.reserved % 0x100) as u8,
            ((self.reserved / 0x100) % 0x100) as u8,
            ((self.reserved / 0x1_0000) % 0x100) as u8,
            ((self.reserved / 0x100_0000) % 0x100) as u8,
        ];
        assert(r@ =~= self@);
        r
    }
}

/// The interrupt descriptor table: one gate per vector.
pub struct Idt {
    entries: [IdtEntry; IDT_ENTRIES],
}

impl Idt {
    /// The descriptors, by vector.
    pub closed spec fn entries(self) -> Seq<IdtEntry> {
        self.entries@
    }

    /// A table with every vector empty.
    pub fn new() -> (r: Self)
        ensures
            r.entries().len() == IDT_ENTRIES,
            forall|i: int| 0 <= i < IDT_ENTRIES ==> #[trigger] r.entries()[i]@ == null_gate_bytes(),
    {
        let null = IdtEntry::null();
        Idt { entries: [null; IDT_ENTRIES] }
    }

    /// Installs the handler at address `handler` for vector `index`; the other
    /// vectors keep their descriptors.
    pub fn set_handler(&mut self, index: u8, handler: usize)
        ensures
            final(self).entries() == old(self).entries().update(index as int, final(self).entries()[index as int]),
            final(self).entries()[index as int]@ == gate_bytes(handler as u64),
            final(self).entries()[index as int].handler() == handler,
    {
        self.entries[index as usize] = IdtEntry::new(handler);
    }

    /// Descriptor of vector `index`.
    pub fn entry(&self, index: u8) -> (r: IdtEntry)
        ensures
            r == self.entries()[index as int],
    {
        self.entries[index as usize]
    }

    /// The table as it is laid out in memory: the descriptors' bytes, one
    /// after the other.
    pub fn to_bytes(&self) -> (r: Vec<u8>)
        ensures
            r@.len() == 16 * IDT_ENTRIES,
            forall|k: int, b: int|
                0 <= k < IDT_ENTRIES && 0 <= b < 16 ==> r@[16 * k + b] == #[trigger] self.entries()[k]@[b],
    {
        let mut r: Vec<u8> = Vec::new();
        let mut k: usize = 0;
        while k < IDT_ENTRIES
            invariant
                k <= IDT_ENTRIES,
                self.entries@.len() == IDT_ENTRIES,
                r@.len() == 16 * k,
                forall|k2: int, b: int|
                    0 <= k2 < k && 0 <= b < 16 ==> r@[16 * k2 + b] == #[trigger] self.entries@[k2]@[b],
            decreases IDT_ENTRIES - k,
        {
            let bytes = self.entries[k].to_bytes();
            let mut b: usize = 0;
            while b < 16
                invariant
                    k < IDT_ENTRIES,
                    self.entries@.len() == IDT_ENTRIES,
                    bytes@ == self.entries@[k as int]@,
                    b <= 16,
                    r@.len() == 16 * k + b,
                    forall|b2: int| 0 <= b2 < b ==> r@[16 * k + b2] == bytes@[b2],
                    forall|k2: int, b2: int|
                        0 <= k2 < k && 0 <= b2 < 16 ==> r@[16 * k2 + b2] == #[trigger] self.entries@[k2]@[b2],
                decreases 16 - b,
            {
                r.push(bytes[b]);
                b += 1;
            }
            k += 1;
        }
        r
    }

    /// The descriptor-table register value for this table placed at linear
    /// address `address`: size is the table's byte length less one.
    pub fn pointer(&self, address: u64) -> (r: DescriptorTablePointer)
        ensures
            r.size == 16 * IDT_ENTRIES - 1,
            r.offset == address,
    {
        DescriptorTablePointer { size: (16 * IDT_ENTRIES - 1) as u16, offset: address }
    }
}

} // verus!
