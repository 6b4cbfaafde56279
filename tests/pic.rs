use wflos_boot::pic::{
    disable_all_sequence, disable_irq_mask, enable_irq_mask, eoi_sequence, init_sequence, irq_vector,
    mask_port, PortWrite, IO_WAIT_PORT, PIC1_COMMAND, PIC1_DATA, PIC2_COMMAND, PIC2_DATA, PIC_EOI,
};

fn w(port: u16, value: u8) -> PortWrite {
    PortWrite { port, value }
}

#[test]
fn init_remaps_and_restores_masks() {
    let writes = init_sequence(0xB8, 0x8F);
    let wait = w(IO_WAIT_PORT, 0);
    let expected = vec![
        w(0x20, 0x11), wait, w(0xA0, 0x11), wait,
        w(0x21, 32), wait, w(0xA1, 40), wait,
        w(0x21, 4), wait, w(0xA1, 2), wait,
        w(0x21, 0x01), wait, w(0xA1, 0x01), wait,
        w(0x21, 0xB8), w(0xA1, 0x8F),
    ];
    assert_eq!(writes, expected);
}

#[test]
fn irq_vectors_follow_exceptions() {
    assert_eq!(irq_vector(0), 32);
    assert_eq!(irq_vector(1), 33);
    assert_eq!(irq_vector(7), 39);
    assert_eq!(irq_vector(8), 40);
    assert_eq!(irq_vector(15), 47);
}

#[test]
fn masks_change_one_line() {
    assert_eq!(mask_port(1), PIC1_DATA);
    assert_eq!(mask_port(12), PIC2_DATA);
    assert_eq!(enable_irq_mask(0xFF, 1), 0xFD);
    assert_eq!(enable_irq_mask(0xFF, 12), 0xEF);
    assert_eq!(enable_irq_mask(0x00, 3), 0x00);
    assert_eq!(disable_irq_mask(0x00, 1), 0x02);
    assert_eq!(disable_irq_mask(0xF0, 9), 0xF2);
    assert_eq!(disable_irq_mask(0x02, 1), 0x02);
}

#[test]
fn eoi_goes_to_secondary_first() {
    assert_eq!(eoi_sequence(1), vec![w(PIC1_COMMAND, PIC_EOI)]);
    assert_eq!(eoi_sequence(8), vec![w(PIC2_COMMAND, PIC_EOI), w(PIC1_COMMAND, PIC_EOI)]);
    assert_eq!(eoi_sequence(15), vec![w(0xA0, 0x20), w(0x20, 0x20)]);
}

#[test]
fn disable_all_masks_everything() {
    assert_eq!(disable_all_sequence(), vec![w(0x21, 0xFF), w(0xA1, 0xFF)]);
}
