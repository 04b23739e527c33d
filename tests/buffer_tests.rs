use machina::buffer::{CodeBuffer, TRAP};
use machina::error::BufferError;
use machina::machina::{self as machina_mod, Machina};
use machina::memory::{self, Memory};

#[test]
fn fresh_buffer_holds_trap_bytes() {
    let m = Machina::new(3).unwrap();
    assert_eq!(m.capacity(), 3 * machina_mod::PAGE_SIZE);
    assert_eq!(m.cursor(), 0);
    assert!(m.as_bytes().iter().all(|b| *b == 0xc3));
    assert_eq!(TRAP, 0xc3);
}

#[test]
fn emit_bytes_writes_program() {
    let mut m = Machina::new(1).unwrap();
    let program = vec![0x48, 0xc7, 0xc0, 0x37, 0x13, 0x00, 0x00, 0xc3];
    assert_eq!(m.emit_bytes(program.clone()), Ok(()));
    assert_eq!(&m.as_bytes()[..8], &program[..]);
    assert_eq!(m.byte_at(8), Some(0xc3));
    assert_eq!(m.cursor(), 8);
}

#[test]
fn emit_past_end_fails() {
    let mut m = Memory::new(1).unwrap();
    for i in 0..memory::PAGE_SIZE {
        assert_eq!(m.emit((i % 251) as u8), Ok(()));
    }
    let before = m.as_bytes().to_vec();
    assert_eq!(m.emit(0x90), Err(BufferError::BufferOverflow));
    assert_eq!(m.as_bytes(), &before[..]);
    assert_eq!(m.cursor(), memory::PAGE_SIZE);
    assert_eq!(m.capacity(), memory::PAGE_SIZE);
}

#[test]
fn emit_bytes_stops_at_end() {
    let mut m = Memory::new(1).unwrap();
    assert_eq!(m.emit_bytes(vec![0x90; memory::PAGE_SIZE - 2]), Ok(()));
    assert_eq!(m.emit_bytes(vec![1, 2, 3, 4]), Err(BufferError::BufferOverflow));
    assert_eq!(m.cursor(), memory::PAGE_SIZE);
    assert_eq!(m.byte_at(memory::PAGE_SIZE - 2), Some(1));
    assert_eq!(m.byte_at(memory::PAGE_SIZE - 1), Some(2));
    assert_eq!(m.byte_at(memory::PAGE_SIZE), None);
}

#[test]
fn emit32_little_endian() {
    let mut m = Machina::new(1).unwrap();
    assert_eq!(m.emit32(0x12345678), Ok(()));
    assert_eq!(&m.as_bytes()[..5], &[0x78, 0x56, 0x34, 0x12, 0xc3]);
}

#[test]
fn emit64_low_half_first() {
    let mut m = Machina::new(1).unwrap();
    assert_eq!(m.emit64(0x1122334455667788), Ok(()));
    assert_eq!(
        &m.as_bytes()[..9],
        &[0x88, 0x77, 0x66, 0x55, 0x44, 0x33, 0x22, 0x11, 0xc3]
    );
    assert_eq!(m.cursor(), 8);
}

#[test]
fn emit64_partial_at_end() {
    let mut m = Memory::new(1).unwrap();
    assert_eq!(m.emit_bytes(vec![0; memory::PAGE_SIZE - 6]), Ok(()));
    assert_eq!(m.emit64(0x1122334455667788), Err(BufferError::BufferOverflow));
    assert_eq!(&m.as_bytes()[memory::PAGE_SIZE - 6..], &[0x88, 0x77, 0x66, 0x55, 0x44, 0x33]);
    assert_eq!(m.cursor(), memory::PAGE_SIZE);
}

#[test]
fn fill_keeps_cursor_and_reset_clears() {
    let mut m = Memory::new(2).unwrap();
    m.emit32(7).unwrap();
    m.fill(0x90);
    assert_eq!(m.cursor(), 4);
    assert!(m.as_bytes().iter().all(|b| *b == 0x90));
    m.reset();
    assert_eq!(m.cursor(), 0);
    assert!(m.as_bytes().iter().all(|b| *b == 0xc3));
    assert_eq!(m.capacity(), 2 * memory::PAGE_SIZE);
}

#[test]
fn set_byte_is_bounds_checked() {
    let mut m = Memory::new(1).unwrap();
    assert_eq!(m.set_byte(5, 0x90), Ok(()));
    assert_eq!(m.byte_at(5), Some(0x90));
    assert_eq!(m.set_byte(memory::PAGE_SIZE, 0x90), Err(BufferError::BufferOverflow));
    assert_eq!(m.cursor(), 0);
}

#[test]
fn oversized_region_is_refused() {
    assert!(matches!(Machina::new(usize::MAX), Err(BufferError::AllocationError)));
    assert!(matches!(Memory::new(usize::MAX / 1024), Err(BufferError::AllocationError)));
}

#[test]
fn empty_region_refuses_every_byte() {
    let mut m = Machina::new(0).unwrap();
    assert_eq!(m.capacity(), 0);
    assert_eq!(m.emit(0xc3), Err(BufferError::BufferOverflow));
    assert_eq!(m.emit_bytes(vec![]), Ok(()));
}

#[test]
fn many_buffers_created_and_dropped() {
    for i in 0..10_000usize {
        let mut m = Machina::new(1).unwrap();
        m.emit((i % 256) as u8).unwrap();
        assert_eq!(m.byte_at(0), Some((i % 256) as u8));
    }
}

#[test]
fn code_buffer_of_any_size() {
    let mut b = CodeBuffer::new(3);
    assert_eq!(b.emit_bytes(&[1, 2, 3]), Ok(()));
    assert_eq!(b.emit(4), Err(BufferError::BufferOverflow));
    assert_eq!(b.as_bytes(), &[1, 2, 3]);
}
