use wflos_boot::interrupts::{Exception, KEYBOARD_VECTOR};
use wflos_boot::pic::irq_vector;

#[test]
fn exception_vectors_round_trip() {
    let all = [
        Exception::DivideByZero,
        Exception::Debug,
        Exception::Breakpoint,
        Exception::DoubleFault,
        Exception::GeneralProtectionFault,
        Exception::PageFault,
    ];
    let vectors: Vec<u8> = all.iter().map(|e| e.vector()).collect();
    assert_eq!(vectors, vec![0, 1, 3, 8, 13, 14]);
    for e in all {
        assert_eq!(Exception::from_vector(e.vector()), Some(e));
    }
    assert_eq!(Exception::from_vector(2), None);
    assert_eq!(Exception::from_vector(33), None);
}

#[test]
fn only_debug_and_breakpoint_resume() {
    assert!(Exception::DivideByZero.is_fatal());
    assert!(Exception::PageFault.is_fatal());
    assert!(Exception::GeneralProtectionFault.is_fatal());
    assert!(Exception::DoubleFault.is_fatal());
    assert!(!Exception::Debug.is_fatal());
    assert!(!Exception::Breakpoint.is_fatal());
}

#[test]
fn keyboard_vector_is_irq_one() {
    assert_eq!(KEYBOARD_VECTOR, irq_vector(1));
}
