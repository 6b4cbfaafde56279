//! Segment descriptor table.
//!
//! A fixed table of nine 8-byte descriptors. Its first five entries are null
//! (entry 0 must be; entries 1 to 4 keep the selectors that the boot loader
//! uses for its own segments free), then come kernel code, kernel data, user
//! code and user data. A selector is the byte offset of its entry.
use vstd::prelude::*;

verus! {

// Access byte.
pub const PRESENT: u8 = 1 << 7;
pub const DPL_0: u8 = 0 << 5;
pub const DPL_3: u8 = 3 << 5;
pub const DESCRIPTOR_TYPE: u8 = 1 << 4;
pub const EXECUTABLE: u8 = 1 << 3;
pub const RW: u8 = 1 << 1;

// Flags byte.
pub const GRANULARITY: u8 = 1 << 7;
pub const LONG_MODE: u8 = 1 << 5;

/// Number of descriptors in the table.
pub const GDT_ENTRY_COUNT: usize = 9;

/// Selector of the 64-bit kernel code segment.
pub const KERNEL_CODE_SELECTOR: u16 = 0x28;
/// Selector of the 64-bit kernel data segment.
pub const KERNEL_DATA_SELECTOR: u16 = 0x30;

/// Little-endian bytes of a 16-bit value.
pub open spec fn le16(v: int) -> Seq<u8> {
    seq![(v % 0x100) as u8, ((v / 0x100) % 0x100) as u8]
}

/// Little-endian bytes of a 32-bit value.
pub open spec fn le32(v: int) -> Seq<u8> {
    seq![
        (v % 0x100) as u8,
        ((v / 0x100) % 0x100) as u8,
        ((v / 0x1_0000) % 0x100) as u8,
        ((v / 0x100_0000) % 0x100) as u8,
    ]
}

/// Little-endian bytes of a 64-bit value.
pub open spec fn le64(v: int) -> Seq<u8> {
    seq![
        (v % 0x100) as u8,
        ((v / 0x100) % 0x100) as u8,
        ((v / 0x1_0000) % 0x100) as u8,
        ((v / 0x100_0000) % 0x100) as u8,
        ((v / 0x1_0000_0000) % 0x100) as u8,
        ((v / 0x100_0000_0000) % 0x100) as u8,
        ((v / 0x1_0000_0000_0000) % 0x100) as u8,
        ((v / 0x100_0000_0000_0000) % 0x100) as u8,
    ]
}

/// Bytes of a long-mode segment descriptor with the given access and flags
/// bytes: limit and base are unused and zero.
pub open spec fn segment_bytes(access: u8, flags: u8) -> Seq<u8> {
    seq![0u8, 0u8, 0u8, 0u8, 0u8, access, flags, 0u8]
}

/// Bytes of the null descriptor.
pub open spec fn null_bytes() -> Seq<u8> {
    segment_bytes(0, 0)
}

/// One segment descriptor. In memory it is, in order: limit bits 0..16,
/// base bits 0..16, base bits 16..24, access byte, flags byte, base bits
/// 24..32; multi-byte fields are little-endian.
#[derive(Clone, Copy, Debug, PartialEq, Eq, Structural)]
pub struct GdtEntry {
    limit_low: u16,
    base_low: u16,
    base_mid: u8,
    access: u8,
    granularity: u8,
    base_high: u8,
}

impl View for GdtEntry {
    type V = Seq<u8>;

    /// The eight bytes of the descriptor, in memory order.
    closed spec fn view(&self) -> Seq<u8> {
        le16(self.limit_low as int) + le16(self.base_low as int) + seq![
            self.base_mid,
            self.access,
            self.granularity,
            self.base_high,
        ]
    }
}

impl GdtEntry {
    /// The null descriptor: all eight bytes zero.
    pub fn null() -> (r: Self)
        ensures
            r@ == null_bytes(),
    {
        let r = GdtEntry {
            limit_low: 0,
            base_low: 0,
            base_mid: 0,
            access: 0,
            granularity: 0,
            base_high: 0,
        };
        assert(r@ =~= null_bytes());
        r
    }

    /// A long-mode descriptor with the given access byte and flags byte.
    pub fn new(access: u8, flags: u8) -> (r: Self)
        ensures
            r@ == segment_bytes(access, flags),
    {
        let r = GdtEntry {
            limit_low: 0,
            base_low: 0,
            base_mid: 0,
            access,
            granularity: flags,
            base_high: 0,
        };
        assert(r@ =~= segment_bytes(access, flags));
        r
    }

    /// The access byte.
    pub fn access(&self) -> (r: u8)
        ensures
            r == self@[5],
    {
        self.access
    }

    /// The flags byte.
    pub fn flags(&self) -> (r: u8)
        ensures
            r == self@[6],
    {
        self.granularity
    }

    /// The descriptor as it is laid out in memory.
    pub fn to_bytes(&self) -> (r: [u8; 8])
        ensures
            r@ == self@,
    {
        let r = [
            (self.limit_low % 0x100) as u8,
            (self.limit_low / 0x100) as u8,
            (self.base_low % 0x100) as u8,
            (self.base_low / 0x100) as u8,
            self.base_mid,
            self.access,
            self.granularity,
            self.base_high,
        ];
        assert(r@ =~= self@);
        r
    }
}

/// Contents of a descriptor-table register: the table's size in bytes less
/// one, and its linear address.
#[derive(Clone, Copy, Debug, PartialEq, Eq, Structural)]
pub struct DescriptorTablePointer {
    pub size: u16,
    pub offset: u64,
}

impl DescriptorTablePointer {
    /// The ten bytes loaded into the register: size, then address, both
    /// little-endian.
    pub fn to_bytes(&self) -> (r: [u8; 10])
        ensures
            r@ == le16(self.size as int) + le64(self.offset as int),
    {
        let a = self.offset;
        let r = [
            (self.size % 0x100) as u8,
            (self.size / 0x100) as u8,
            (a % 0x100) as u8,
            ((a / 0x100) % 0x100) as u8,
            ((a / 0x1_0000) % 0x100) as u8,
            ((a / 0x100_0000) % 0x100) as u8,
            ((a / 0x1_0000_0000) % 0x100) as u8,
            ((a / 0x100_0000_0000) % 0x100) as u8,
            ((a / 0x1_0000_0000_0000) % 0x100) as u8,
            ((a / 0x100_0000_0000_0000) % 0x100) as u8,
        ];
        assert(r@ =~= le16(self.size as int) + le64(self.offset as int));
        r
    }
}

/// Bytes of the kernel code descriptor: present, ring 0, code/data type,
/// executable, readable; page granularity, 64-bit.
pub open spec fn kernel_code_bytes() -> Seq<u8> {
    segment_bytes(0x9A, 0xA0)
}

/// Bytes of the kernel data descriptor: present, ring 0, writable; page granularity.
pub open spec fn kernel_data_bytes() -> Seq<u8> {
    segment_bytes(0x92, 0x80)
}

/// Bytes of the user code descriptor: as kernel code, in ring 3.
pub open spec fn user_code_bytes() -> Seq<u8> {
    segment_bytes(0xFA, 0xA0)
}

/// Bytes of the user data descriptor: as kernel data, in ring 3.
pub open spec fn user_data_bytes() -> Seq<u8> {
    segment_bytes(0xF2, 0x80)
}

/// The segment descriptor table, fixed at construction.
pub struct Gdt {
    table: [GdtEntry; GDT_ENTRY_COUNT],
}

impl Gdt {
    /// The descriptors, in table order.
    pub closed spec fn entries(self) -> Seq<GdtEntry> {
        self.table@
    }

    /// The table: five null descriptors, then kernel code (selector 0x28),
    /// kernel data (0x30), user code (0x38) and user data (0x40).
    pub fn new() -> (r: Self)
        ensures
            r.entries().len() == GDT_ENTRY_COUNT,
            forall|i: int| 0 <= i < 5 ==> #[trigger] r.entries()[i]@ == null_bytes(),
            r.entries()[5]@ == kernel_code_bytes(),
            r.entries()[6]@ == kernel_data_bytes(),
            r.entries()[7]@ == user_code_bytes(),
            r.entries()[8]@ == user_data_bytes(),
            r.entries()[KERNEL_CODE_SELECTOR as int / 8]@ == kernel_code_bytes(),
            r.entries()[KERNEL_DATA_SELECTOR as int / 8]@ == kernel_data_bytes(),
    {
        let kernel_code = GdtEntry::new(
            PRESENT | DPL_0 | DESCRIPTOR_TYPE | EXECUTABLE | RW,
            GRANULARITY | LONG_MODE,
        );
        let kernel_data = GdtEntry::new(PRESENT | DPL_0 | DESCRIPTOR_TYPE | RW, GRANULARITY);
        let user_code = GdtEntry::new(
            PRESENT | DPL_3 | DESCRIPTOR_TYPE | EXECUTABLE | RW,
            GRANULARITY | LONG_MODE,
        );
        let user_data = GdtEntry::new(PRESENT | DPL_3 | DESCRIPTOR_TYPE | RW, GRANULARITY);
        assert(PRESENT | DPL_0 | DESCRIPTOR_TYPE | EXECUTABLE | RW == 0x9Au8) by (bit_vector);
        assert(PRESENT | DPL_0 | DESCRIPTOR_TYPE | RW == 0x92u8) by (bit_vector);
        assert(PRESENT | DPL_3 | DESCRIPTOR_TYPE | EXECUTABLE | RW == 0xFAu8) by (bit_vector);
        assert(PRESENT | DPL_3 | DESCRIPTOR_TYPE | RW == 0xF2u8) by (bit_vector);
        assert(GRANULARITY | LONG_MODE == 0xA0u8) by (bit_vector);
        assert(GRANULARITY == 0x80u8) by (bit_vector);
        let table = [
            GdtEntry::null(),
            GdtEntry::null(),
            GdtEntry::null(),
            GdtEntry::null(),
            GdtEntry::null(),
            kernel_code,
            kernel_data,
            user_code,
            user_data,
        ];
        Gdt { table }
    }

    /// Descriptor `index` of the table.
    pub fn entry(&self, index: usize) -> (r: GdtEntry)
        requires
            index < GDT_ENTRY_COUNT,
        ensures
            r == self.entries()[index as int],
    {
        self.table[index]
    }

    /// The table as it is laid out in memory: the descriptors' bytes, one
    /// after the other.
    pub fn to_bytes(&self) -> (r: Vec<u8>)
        ensures
            r@.len() == 8 * GDT_ENTRY_COUNT,
            forall|k: int, b: int|
                0 <= k < GDT_ENTRY_COUNT && 0 <= b < 8 ==> r@[8 * k + b] == #[trigger] self.entries()[k]@[b],
    {
        let mut r: Vec<u8> = Vec::new();
        let mut k: usize = 0;
        while k < GDT_ENTRY_COUNT
            invariant
                k <= GDT_ENTRY_COUNT,
                self.table@.len() == GDT_ENTRY_COUNT,
                r@.len() == 8 * k,
                forall|k2: int, b: int|
                    0 <= k2 < k && 0 <= b < 8 ==> r@[8 * k2 + b] == #[trigger] self.table@[k2]@[b],
            decreases GDT_ENTRY_COUNT - k,
        {
            let bytes = self.table[k].to_bytes();
            let mut b: usize = 0;
            while b < 8
                invariant
                    k < GDT_ENTRY_COUNT,
                    self.table@.len() == GDT_ENTRY_COUNT,
                    bytes@ == self.table@[k as int]@,
                    b <= 8,
                    r@.len() == 8 * k + b,
                    forall|b2: int| 0 <= b2 < b ==> r@[8 * k + b2] == bytes@[b2],
                    forall|k2: int, b2: int|
                        0 <= k2 < k && 0 <= b2 < 8 ==> r@[8 * k2 + b2] == #[trigger] self.table@[k2]@[b2],
                decreases 8 - b,
            {
                r.push(bytes[b]);
                b += 1;
            }
            k += 1;
        }
        r
    }

    /// The descriptor-table register value for this table placed at linear
    /// address `address`: size is the table's byte length less one.
    pub fn pointer(&self, address: u64) -> (r: DescriptorTablePointer)
        ensures
            r.size == 8 * GDT_ENTRY_COUNT - 1,
            r.offset == address,
    {
        DescriptorTablePointer { size: (8 * GDT_ENTRY_COUNT - 1) as u16, offset: address }
    }
}

} // verus!
