//! PS/2 keyboard input: scan codes that the keyboard interrupt stores, and
//! their translation to characters (US layout, scan code set 1).
use vstd::prelude::*;
use crate::ring_buffer::RingBuffer;
use crate::spinlock::Spinlock;

verus! {

/// Capacity of the scan-code buffer, in slots.
pub const BUFFER_SIZE: usize = 256;

/// Character of a key-press scan code; `None` for key releases (bit 7 set)
/// and keys without a character.
pub open spec fn scancode_char(scan_code: u8) -> Option<char> {
    if scan_code & 0x80 != 0 {
        None
    } else {
        match scan_code {
            0x01 => Some('\x1B'),
            0x02 => Some('1'),
            0x03 => Some('2'),
            0x04 => Some('3'),
            0x05 => Some('4'),
            0x06 => Some('5'),
            0x07 => Some('6'),
            0x08 => Some('7'),
            0x09 => Some('8'),
            0x0A => Some('9'),
            0x0B => Some('0'),
            0x0C => Some('-'),
            0x0D => Some('='),
            0x0E => Some('\x08'),
            0x0F => Some('\t'),
            0x10 => Some('q'),
            0x11 => Some('w'),
            0x12 => Some('e'),
            0x13 => Some('r'),
            0x14 => Some('t'),
            0x15 => Some('y'),
            0x16 => Some('u'),
            0x17 => Some('i'),
            0x18 => Some('o'),
            0x19 => Some('p'),
            0x1A => Some('['),
            0x1B => Some(']'),
            0x1C => Some('\n'),
            0x1E => Some('a'),
            0x1F => Some('s'),
            0x20 => Some('d'),
            0x21 => Some('f'),
            0x22 => Some('g'),
            0x23 => Some('h'),
            0x24 => Some('j'),
            0x25 => Some('k'),
            0x26 => Some('l'),
            0x27 => Some(';'),
            0x28 => Some('\''),
            0x29 => Some('`'),
            0x2B => Some('\\'),
            0x2C => Some('z'),
            0x2D => Some('x'),
            0x2E => Some('c'),
            0x2F => Some('v'),
            0x30 => Some('b'),
            0x31 => Some('n'),
            0x32 => Some('m'),
            0x33 => Some(','),
            0x34 => Some('.'),
            0x35 => Some('/'),
            0x39 => Some(' '),
            _ => None,
        }
    }
}

/// Character of a key-press scan code; `None` for key releases (bit 7 set)
/// and keys without a character.
pub fn scancode_to_ascii(scan_code: u8) -> (r: Option<char>)
    ensures
        r == scancode_char(scan_code),
{
    if scan_code & 0x80 != 0 {
        return None;
    }
    match scan_code {
        0x01 => Some('\x1B'),
        0x02 => Some('1'),
        0x03 => Some('2'),
        0x04 => Some('3'),
        0x05 => Some('4'),
        0x06 => Some('5'),
        0x07 => Some('6'),
        0x08 => Some('7'),
        0x09 => Some('8'),
        0x0A => Some('9'),
        0x0B => Some('0'),
        0x0C => Some('-'),
        0x0D => Some('='),
        0x0E => Some('\x08'),
        0x0F => Some('\t'),
        0x10 => Some('q'),
        0x11 => Some('w'),
        0x12 => Some('e'),
        0x13 => Some('r'),
        0x14 => Some('t'),
        0x15 => Some('y'),
        0x16 => Some('u'),
        0x17 => Some('i'),
        0x18 => Some('o'),
        0x19 => Some('p'),
        0x1A => Some('['),
        0x1B => Some(']'),
        0x1C => Some('\n'),
        0x1E => Some('a'),
        0x1F => Some('s'),
        0x20 => Some('d'),
        0x21 => Some('f'),
        0x22 => Some('g'),
        0x23 => Some('h'),
        0x24 => Some('j'),
        0x25 => Some('k'),
        0x26 => Some('l'),
        0x27 => Some(';'),
        0x28 => Some('\''),
        0x29 => Some('`'),
        0x2B => Some('\\'),
        0x2C => Some('z'),
        0x2D => Some('x'),
        0x2E => Some('c'),
        0x2F => Some('v'),
        0x30 => Some('b'),
        0x31 => Some('n'),
        0x32 => Some('m'),
        0x33 => Some(','),
        0x34 => Some('.'),
        0x35 => Some('/'),
        0x39 => Some(' '),
        _ => None,
    }
}

/// Position of the first scan code from `i` on that has a character, or the
/// length when none has.
pub open spec fn first_key_from(codes: Seq<u8>, i: int) -> int
    decreases codes.len() - i,
{
    if i < 0 || i >= codes.len() {
        codes.len() as int
    } else if scancode_char(codes[i]) is Some {
        i
    } else {
        first_key_from(codes, i + 1)
    }
}

/// Takes scan codes from the buffer, oldest first, up to and including the
/// first that has a character, and returns that character; when none has,
/// empties the buffer and returns `None`.
pub fn next_key(buffer: &mut RingBuffer<u8, BUFFER_SIZE>) -> (r: Option<char>)
    requires
        old(buffer).wf(),
    ensures
        final(buffer).wf(),
        ({
            let codes = old(buffer)@;
            let k = first_key_from(codes, 0);
            if k < codes.len() {
                r == scancode_char(codes[k]) && final(buffer)@ == codes.subrange(k + 1, codes.len() as int)
            } else {
                r is None && final(buffer)@ == Seq::<u8>::empty()
            }
        }),
{
    let ghost codes = buffer@;
    let ghost mut taken: int = 0;
    loop
        invariant
            buffer.wf(),
            codes == old(buffer)@,
            0 <= taken <= codes.len(),
            buffer@ == codes.subrange(taken, codes.len() as int),
            first_key_from(codes, 0) == first_key_from(codes, taken),
        decreases buffer@.len(),
    {
        match buffer.pop() {
            Some(scan_code) => {
                proof {
                    assert(scan_code == codes[taken]);
                    taken = taken + 1;
                }
                if let Some(key) = scancode_to_ascii(scan_code) {
                    assert(first_key_from(codes, taken - 1) == taken - 1);
                    assert(buffer@ =~= codes.subrange(taken, codes.len() as int));
                    return Some(key);
                }
                assert(first_key_from(codes, taken - 1) == first_key_from(codes, taken));
            },
            None => {
                assert(taken == codes.len());
                assert(first_key_from(codes, taken) == codes.len());
                assert(buffer@ =~= Seq::<u8>::empty());
                return None;
            },
        }
    }
}

/// What the lock of the scan-code buffer keeps true of it.
pub open spec fn buffer_wf() -> spec_fn(RingBuffer<u8, BUFFER_SIZE>) -> bool {
    |b: RingBuffer<u8, BUFFER_SIZE>| b.wf()
}

/// An empty scan-code buffer behind a lock, to share between the keyboard
/// interrupt and its readers.
pub fn new_shared_buffer() -> (r: Spinlock<RingBuffer<u8, BUFFER_SIZE>>)
    ensures
        r.guarded() == buffer_wf(),
{
    Spinlock::with_invariant(RingBuffer::new(), Ghost(buffer_wf()))
}

/// Takes the oldest scan code from the shared buffer.
pub fn read_scancode(buffer: &Spinlock<RingBuffer<u8, BUFFER_SIZE>>) -> Option<u8>
    requires
        buffer.guarded() == buffer_wf(),
{
    let mut guard = buffer.lock();
    let r = guard.get_mut().pop();
    guard.release();
    r
}

/// Takes scan codes from the shared buffer until one has a character, and
/// returns it; `None` once the buffer runs empty.
pub fn read_key(buffer: &Spinlock<RingBuffer<u8, BUFFER_SIZE>>) -> (r: Option<char>)
    requires
        buffer.guarded() == buffer_wf(),
    ensures
        r matches Some(c) ==> exists|code: u8| scancode_char(code) == Some(c),
{
    let mut guard = buffer.lock();
    let r = next_key(guard.get_mut());
    guard.release();
    r
}

} // verus!
