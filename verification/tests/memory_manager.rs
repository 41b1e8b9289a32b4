use maarch64::memory::{align_down_page, align_up_page, MemoryManager, MMAP_BASE, PROT_READ};
use maarch64::Error;

fn memory_message(e: Error) -> String {
    match e {
        Error::MemoryError(m) => m,
        other => panic!("not a memory error: {:?}", other),
    }
}

#[test]
fn page_alignment() {
    assert_eq!(align_down_page(0x1234), 0x1000);
    assert_eq!(align_down_page(0x2000), 0x2000);
    assert_eq!(align_up_page(0x1234), 0x2000);
    assert_eq!(align_up_page(0x2000), 0x2000);
    assert_eq!(align_up_page(0), 0);
}

#[test]
fn read_after_write_gives_the_data_back() {
    let mut mem = MemoryManager::new();
    assert_eq!(mem.map_anonymous(0x10000, 0x1000).unwrap(), 0x10000);
    mem.write(0x10010, &[1, 2, 3, 4, 5]).unwrap();
    assert_eq!(mem.read(0x10010, 5).unwrap(), vec![1, 2, 3, 4, 5]);
    assert_eq!(mem.read(0x1000f, 2).unwrap(), vec![0, 1]);
}

#[test]
fn fresh_mapping_reads_zero() {
    let mut mem = MemoryManager::new();
    mem.map_anonymous(0x40000, 64).unwrap();
    assert_eq!(mem.read(0x40000, 64).unwrap(), vec![0u8; 64]);
}

#[test]
fn mapping_at_zero_uses_the_cursor() {
    let mut mem = MemoryManager::new();
    let a = mem.map_anonymous(0, 100).unwrap();
    assert_eq!(a, MMAP_BASE);
    let b = mem.map_anonymous(0, 0x1000).unwrap();
    assert_eq!(b, MMAP_BASE + 0x1000);
    let c = mem.map_anonymous(0, 1).unwrap();
    assert_eq!(c, MMAP_BASE + 0x2000);
}

#[test]
fn zero_sized_mapping_is_refused() {
    let mut mem = MemoryManager::new();
    let e = mem.map_anonymous(0x1000, 0).unwrap_err();
    assert_eq!(memory_message(e), "Size cannot be zero");
}

#[test]
fn access_outside_segments_faults() {
    let mut mem = MemoryManager::new();
    mem.map_anonymous(0x1000, 0x1000).unwrap();
    let e = mem.read(0x5000, 4).unwrap_err();
    assert_eq!(
        memory_message(e),
        "Address 0x5000 (len 4) out of mapped bounds. Segments: [0x1000..0x2000]"
    );
    assert_eq!(e_text_of_write(&mut mem), "Address 0x1ffe (len 4) out of mapped bounds. Segments: [0x1000..0x2000]");
}

fn e_text_of_write(mem: &mut MemoryManager) -> String {
    memory_message(mem.write(0x1ffe, &[9, 9, 9, 9]).unwrap_err())
}

#[test]
fn write_cut_short_keeps_the_stored_prefix() {
    let mut mem = MemoryManager::new();
    mem.map_anonymous(0x1000, 0x1000).unwrap();
    assert!(mem.write(0x1ffe, &[7, 8, 9]).is_err());
    assert_eq!(mem.read(0x1ffe, 2).unwrap(), vec![7, 8]);
}

#[test]
fn read_spanning_adjacent_segments() {
    let mut mem = MemoryManager::new();
    mem.map_anonymous(0x1000, 0x1000).unwrap();
    mem.map_anonymous(0x2000, 0x1000).unwrap();
    mem.write(0x1ffc, &[1, 2, 3, 4, 5, 6, 7, 8]).unwrap();
    assert_eq!(mem.read(0x1ffc, 8).unwrap(), vec![1, 2, 3, 4, 5, 6, 7, 8]);
    assert_eq!(mem.read(0x2000, 2).unwrap(), vec![5, 6]);
}

#[test]
fn empty_read_is_empty() {
    let mem = MemoryManager::new();
    assert_eq!(mem.read(0x1234, 0).unwrap(), Vec::<u8>::new());
}

#[test]
fn read_string_stops_at_zero() {
    let mut mem = MemoryManager::new();
    mem.map_anonymous(0x1000, 0x100).unwrap();
    mem.write(0x1000, b"hello\0world").unwrap();
    assert_eq!(mem.read_string(0x1000).unwrap(), b"hello".to_vec());
    mem.write(0x10fe, b"ab").unwrap();
    let e = mem.read_string(0x10fe).unwrap_err();
    assert_eq!(memory_message(e), "Address 0x1100 (len 1) out of mapped bounds. Segments: [0x1000..0x1100]");
}

#[test]
fn program_break_grows_by_pages() {
    let mut mem = MemoryManager::new();
    mem.set_brk_base(0x50_0123);
    assert_eq!(mem.brk_base, 0x50_1000);
    assert_eq!(mem.set_brk(0).unwrap(), 0x50_1000);
    assert_eq!(mem.set_brk(0x40_0000).unwrap(), 0x50_1000);
    assert_eq!(mem.set_brk(0x50_1800).unwrap(), 0x50_1800);
    assert_eq!(mem.brk_mapped_end, 0x50_2000);
    mem.write(0x50_1ff0, &[1; 16]).unwrap();
    assert_eq!(mem.set_brk(0x50_1900).unwrap(), 0x50_1900);
    assert_eq!(mem.brk_mapped_end, 0x50_2000);
    assert_eq!(mem.brk_current, 0x50_1900);
}

#[test]
fn mprotect_and_munmap() {
    let mut mem = MemoryManager::new();
    mem.map_anonymous(0x1000, 0x2000).unwrap();
    mem.mprotect(0x1000, 0x100, PROT_READ).unwrap();
    assert_eq!(mem.segments[0].prot, PROT_READ);
    let e = mem.mprotect(0x9000, 0x100, PROT_READ).unwrap_err();
    assert_eq!(memory_message(e), "No mapped segment matching address 0x9000");
    mem.munmap(0x1000, 0x2000).unwrap();
    assert!(mem.read(0x1000, 1).is_err());
    let e = mem.munmap(0x1000, 0x10).unwrap_err();
    assert_eq!(memory_message(e), "No mapped segment to unmap at 0x1000");
}
