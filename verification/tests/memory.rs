use chippers::chip8::Memory;
use chippers::memory::{FONT_SIZE, MEMORY_SIZE, PROGRAM_START};

#[test]
fn new_memory_holds_font_then_zeros() {
    let memory = Memory::new();
    let zero = [0xF0, 0x90, 0x90, 0x90, 0xF0];
    for (k, row) in zero.iter().enumerate() {
        assert_eq!(memory.read(k as u16), *row);
    }
    let one = [0x20, 0x60, 0x20, 0x20, 0x70];
    for (k, row) in one.iter().enumerate() {
        assert_eq!(memory.read(5 + k as u16), *row);
    }
    let last = [0xF0, 0x80, 0xF0, 0x80, 0x80];
    for (k, row) in last.iter().enumerate() {
        assert_eq!(memory.read(75 + k as u16), *row);
    }
    for address in FONT_SIZE..MEMORY_SIZE {
        assert_eq!(memory.read(address as u16), 0);
    }
}

#[test]
fn memory_constants() {
    assert_eq!(MEMORY_SIZE, 4096);
    assert_eq!(FONT_SIZE, 80);
    assert_eq!(PROGRAM_START, 0x200);
}

#[test]
fn write_changes_one_address() {
    let mut memory = Memory::new();
    memory.write(0x300, 0xAB);
    assert_eq!(memory.read(0x300), 0xAB);
    assert_eq!(memory.read(0x2FF), 0);
    assert_eq!(memory.read(0x301), 0);
    assert_eq!(memory.read(0), 0xF0);
}

#[test]
fn write_reaches_first_and_last_address() {
    let mut memory = Memory::new();
    memory.write(0x000, 0x11);
    memory.write(0xFFF, 0x22);
    assert_eq!(memory.read(0x000), 0x11);
    assert_eq!(memory.read(0xFFF), 0x22);
}

#[test]
fn store_copies_bytes_in_order() {
    let mut memory = Memory::new();
    memory.store(0x400, &[1, 2, 3, 4]);
    assert_eq!(memory.read(0x3FF), 0);
    assert_eq!(memory.read(0x400), 1);
    assert_eq!(memory.read(0x401), 2);
    assert_eq!(memory.read(0x402), 3);
    assert_eq!(memory.read(0x403), 4);
    assert_eq!(memory.read(0x404), 0);
}

#[test]
fn store_of_nothing_changes_nothing() {
    let mut memory = Memory::new();
    memory.store(0xFFF, &[]);
    for address in 0..MEMORY_SIZE {
        let expected = Memory::new().read(address as u16);
        assert_eq!(memory.read(address as u16), expected);
    }
}

#[test]
fn store_up_to_the_last_address() {
    let mut memory = Memory::new();
    memory.store(0xFFE, &[7, 8]);
    assert_eq!(memory.read(0xFFE), 7);
    assert_eq!(memory.read(0xFFF), 8);
}
