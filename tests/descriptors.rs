use wflos_boot::gdt::{
    DescriptorTablePointer, Gdt, GdtEntry, DESCRIPTOR_TYPE, DPL_0, EXECUTABLE, GRANULARITY,
    KERNEL_CODE_SELECTOR, KERNEL_DATA_SELECTOR, LONG_MODE, PRESENT, RW,
};
use wflos_boot::idt::{Idt, IdtEntry, IDT_ENTRIES, INTERRUPT_GATE};

#[test]
fn kernel_code_descriptor_bytes() {
    let entry = GdtEntry::new(
        PRESENT | DPL_0 | DESCRIPTOR_TYPE | EXECUTABLE | RW,
        GRANULARITY | LONG_MODE,
    );
    assert_eq!(entry.access(), 0x9A);
    assert_eq!(entry.flags(), 0xA0);
    assert_eq!(entry.to_bytes(), [0, 0, 0, 0, 0, 0x9A, 0xA0, 0]);
}

#[test]
fn null_descriptor_is_all_zero() {
    assert_eq!(GdtEntry::null().to_bytes(), [0u8; 8]);
    assert_eq!(IdtEntry::null().to_bytes(), [0u8; 16]);
}

#[test]
fn gdt_layout_and_selectors() {
    let gdt = Gdt::new();
    for i in 0..5 {
        assert_eq!(gdt.entry(i), GdtEntry::null());
    }
    assert_eq!(gdt.entry(KERNEL_CODE_SELECTOR as usize / 8).to_bytes(), [0, 0, 0, 0, 0, 0x9A, 0xA0, 0]);
    assert_eq!(gdt.entry(KERNEL_DATA_SELECTOR as usize / 8).to_bytes(), [0, 0, 0, 0, 0, 0x92, 0x80, 0]);
    assert_eq!(gdt.entry(7).to_bytes(), [0, 0, 0, 0, 0, 0xFA, 0xA0, 0]);
    assert_eq!(gdt.entry(8).to_bytes(), [0, 0, 0, 0, 0, 0xF2, 0x80, 0]);
    let bytes = gdt.to_bytes();
    assert_eq!(bytes.len(), 72);
    assert_eq!(&bytes[40..48], &[0, 0, 0, 0, 0, 0x9A, 0xA0, 0]);
    assert!(bytes[..40].iter().all(|&b| b == 0));
}

#[test]
fn table_register_values() {
    let gdt = Gdt::new();
    let p = gdt.pointer(0xffff_8000_0012_3000);
    assert_eq!(p, DescriptorTablePointer { size: 71, offset: 0xffff_8000_0012_3000 });
    assert_eq!(p.to_bytes(), [71, 0, 0x00, 0x30, 0x12, 0x00, 0x00, 0x80, 0xff, 0xff]);
    let idt = Idt::new();
    assert_eq!(idt.pointer(0x1000).size, 4095);
}

#[test]
fn interrupt_gate_bytes() {
    let entry = IdtEntry::new(0x1122_3344_5566_7788);
    assert_eq!(entry.handler_address(), 0x1122_3344_5566_7788);
    assert_eq!(
        entry.to_bytes(),
        [0x88, 0x77, 0x28, 0x00, 0x00, INTERRUPT_GATE, 0x66, 0x55, 0x44, 0x33, 0x22, 0x11, 0, 0, 0, 0]
    );
    assert_eq!(INTERRUPT_GATE, 0x8E);
}

#[test]
fn idt_starts_empty_and_installs_handlers() {
    let mut idt = Idt::new();
    for v in 0..IDT_ENTRIES {
        assert_eq!(idt.entry(v as u8), IdtEntry::null());
    }
    idt.set_handler(33, 0xffff_ffff_8000_1234);
    idt.set_handler(14, 0x5000);
    assert_eq!(idt.entry(33).handler_address(), 0xffff_ffff_8000_1234);
    assert_eq!(idt.entry(14), IdtEntry::new(0x5000));
    assert_eq!(idt.entry(32), IdtEntry::null());
    let bytes = idt.to_bytes();
    assert_eq!(bytes.len(), 4096);
    assert_eq!(&bytes[33 * 16..34 * 16], &IdtEntry::new(0xffff_ffff_8000_1234).to_bytes()[..]);
    assert!(bytes[32 * 16..33 * 16].iter().all(|&b| b == 0));
}
