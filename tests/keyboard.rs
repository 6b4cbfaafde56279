use wflos_boot::keyboard::{new_shared_buffer, next_key, read_key, read_scancode, scancode_to_ascii};
use wflos_boot::ring_buffer::RingBuffer;

#[test]
fn scancodes_translate_to_us_layout() {
    assert_eq!(scancode_to_ascii(0x1E), Some('a'));
    assert_eq!(scancode_to_ascii(0x02), Some('1'));
    assert_eq!(scancode_to_ascii(0x1C), Some('\n'));
    assert_eq!(scancode_to_ascii(0x0E), Some('\x08'));
    assert_eq!(scancode_to_ascii(0x01), Some('\x1B'));
    assert_eq!(scancode_to_ascii(0x39), Some(' '));
    assert_eq!(scancode_to_ascii(0x2B), Some('\\'));
    assert_eq!(scancode_to_ascii(0x28), Some('\''));
    assert_eq!(scancode_to_ascii(0x35), Some('/'));
}

#[test]
fn releases_and_unmapped_keys_have_no_character() {
    assert_eq!(scancode_to_ascii(0x9E), None);
    assert_eq!(scancode_to_ascii(0x80), None);
    assert_eq!(scancode_to_ascii(0x00), None);
    assert_eq!(scancode_to_ascii(0x1D), None);
    assert_eq!(scancode_to_ascii(0x2A), None);
    assert_eq!(scancode_to_ascii(0x3A), None);
}

#[test]
fn next_key_skips_codes_without_character() {
    let mut buffer: RingBuffer<u8, 256> = RingBuffer::new();
    for code in [0x9E, 0x2A, 0x23, 0xA3, 0x17] {
        assert!(buffer.push(code));
    }
    assert_eq!(next_key(&mut buffer), Some('h'));
    assert_eq!(buffer.len(), 2);
    assert_eq!(next_key(&mut buffer), Some('i'));
    assert!(buffer.is_empty());
    assert_eq!(next_key(&mut buffer), None);
    assert!(buffer.push(0x9C));
    assert_eq!(next_key(&mut buffer), None);
    assert!(buffer.is_empty());
}

#[test]
fn shared_buffer_reads() {
    let shared = new_shared_buffer();
    assert_eq!(read_scancode(&shared), None);
    {
        let mut guard = shared.lock();
        assert!(guard.get_mut().push(0x80));
        assert!(guard.get_mut().push(0x10));
        assert!(guard.get_mut().push(0x11));
        guard.release();
    }
    assert_eq!(read_scancode(&shared), Some(0x80));
    assert_eq!(read_key(&shared), Some('q'));
    assert_eq!(read_key(&shared), Some('w'));
    assert_eq!(read_key(&shared), None);
}
