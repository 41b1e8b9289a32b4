use maarch64::loader::layout::{apply_layout, LayoutOp};
use maarch64::loader::segments::{push_segment_steps_from, thunk_for_exec};
use maarch64::loader::{AutoLoader, ElfLoader, MachOLoader, TargetOs};
use maarch64::memory::MemoryManager;
use maarch64::Error;

fn push_u16(v: &mut Vec<u8>, x: u16) {
    v.extend_from_slice(&x.to_le_bytes());
}
fn push_u32(v: &mut Vec<u8>, x: u32) {
    v.extend_from_slice(&x.to_le_bytes());
}
fn push_u64(v: &mut Vec<u8>, x: u64) {
    v.extend_from_slice(&x.to_le_bytes());
}

/// A static AArch64 ELF executable with one loadable segment at 0x400000 holding the
/// whole file; its two instructions start at 0x400078.
fn tiny_elf() -> Vec<u8> {
    let mut v = vec![0x7f, b'E', b'L', b'F', 2, 1, 1, 0, 0, 0, 0, 0, 0, 0, 0, 0];
    push_u16(&mut v, 2);
    push_u16(&mut v, 0xb7);
    push_u32(&mut v, 1);
    push_u64(&mut v, 0x40_0078);
    push_u64(&mut v, 64);
    push_u64(&mut v, 0);
    push_u32(&mut v, 0);
    push_u16(&mut v, 64);
    push_u16(&mut v, 56);
    push_u16(&mut v, 1);
    push_u16(&mut v, 64);
    push_u16(&mut v, 0);
    push_u16(&mut v, 0);
    assert_eq!(v.len(), 64);
    push_u32(&mut v, 1);
    push_u32(&mut v, 5);
    push_u64(&mut v, 0);
    push_u64(&mut v, 0x40_0000);
    push_u64(&mut v, 0x40_0000);
    push_u64(&mut v, 0x80);
    push_u64(&mut v, 0x80);
    push_u64(&mut v, 0x1000);
    assert_eq!(v.len(), 0x78);
    v.extend_from_slice(&[0x1f, 0x20, 0x03, 0xd5, 0xc0, 0x03, 0x5f, 0xd6]);
    v
}

fn read_u64(mem: &MemoryManager, a: u64) -> u64 {
    let b = mem.read(a, 8).unwrap();
    u64::from_le_bytes(b.try_into().unwrap())
}

#[test]
fn elf_image_is_laid_out() {
    let data = tiny_elf();
    let mut mem = MemoryManager::new();
    let args = vec![b"prog".to_vec(), b"-v".to_vec()];
    let loaded = ElfLoader::load_image(&data, &args, &mut mem).unwrap();
    assert_eq!(loaded.entry_point, 0x40_0078);
    assert_eq!(loaded.target_os, TargetOs::Linux);
    assert!(loaded.dynamic_thunks.is_empty());
    assert_eq!(mem.read(0x40_0078, 8).unwrap(), data[0x78..0x80].to_vec());
    let sp = loaded.stack_pointer;
    assert_eq!(sp % 16, 0);
    assert_eq!(read_u64(&mem, sp), 2);
    let argv0 = read_u64(&mem, sp + 8);
    let argv1 = read_u64(&mem, sp + 16);
    assert_eq!(mem.read_string(argv0).unwrap(), b"prog".to_vec());
    assert_eq!(mem.read_string(argv1).unwrap(), b"-v".to_vec());
    assert_eq!(read_u64(&mem, sp + 24), 0);
    let env0 = read_u64(&mem, sp + 32);
    assert_eq!(mem.read_string(env0).unwrap(), b"PATH=/usr/local/bin:/usr/bin:/bin".to_vec());
    assert_eq!(mem.brk_base, 0x40_1000);
    assert_eq!(mem.read(0x7f01_0300, 4).unwrap(), vec![1, 0, 0, 0]);
}

#[test]
fn elf_stack_alignment_with_one_argument() {
    let data = tiny_elf();
    let mut mem = MemoryManager::new();
    let loaded = ElfLoader::load_image(&data, &vec![b"a".to_vec()], &mut mem).unwrap();
    assert_eq!(loaded.stack_pointer % 16, 0);
    assert_eq!(read_u64(&mem, loaded.stack_pointer), 1);
}

#[test]
fn garbage_is_an_elf_parse_error() {
    let mut mem = MemoryManager::new();
    let data = vec![0x7f, b'E', b'L', b'F', 9, 9, 9, 9];
    match ElfLoader::load_image(&data, &Vec::new(), &mut mem).unwrap_err() {
        Error::LoadError(m) => assert!(m.starts_with("ELF parse error: ")),
        other => panic!("unexpected {:?}", other),
    }
    assert!(mem.segments.is_empty());
}

#[test]
fn auto_loader_refuses_tiny_files() {
    let mut mem = MemoryManager::new();
    match AutoLoader::load_image(&[1, 2, 3], &Vec::new(), &Vec::new(), &mut mem) {
        Some(Err(Error::LoadError(m))) => assert_eq!(m, "Binary file too small"),
        other => panic!("unexpected {:?}", other),
    }
}

#[test]
fn auto_loader_picks_elf() {
    let mut mem = MemoryManager::new();
    let loaded = AutoLoader::load_image(&tiny_elf(), &b"/bin/prog".to_vec(), &vec![b"prog".to_vec()], &mut mem)
        .unwrap()
        .unwrap();
    assert_eq!(loaded.target_os, TargetOs::Linux);
    assert_eq!(loaded.entry_point, 0x40_0078);
}

#[test]
fn auto_loader_sends_macho_magic_to_the_macho_loader() {
    let mut mem = MemoryManager::new();
    let data = vec![0xcf, 0xfa, 0xed, 0xfe, 0, 0, 0, 0];
    match AutoLoader::load_image(&data, &b"/x".to_vec(), &Vec::new(), &mut mem) {
        Some(Err(Error::LoadError(m))) => assert!(m.starts_with("Mach-O parse error: ")),
        other => panic!("unexpected {:?}", other),
    }
}

fn fat_header(records: &[(u32, u32, u32)]) -> Vec<u8> {
    let mut v = vec![0xca, 0xfe, 0xba, 0xbe];
    v.extend_from_slice(&(records.len() as u32).to_be_bytes());
    for (cpu, off, size) in records {
        v.extend_from_slice(&cpu.to_be_bytes());
        v.extend_from_slice(&0u32.to_be_bytes());
        v.extend_from_slice(&off.to_be_bytes());
        v.extend_from_slice(&size.to_be_bytes());
        v.extend_from_slice(&0u32.to_be_bytes());
    }
    v
}

#[test]
fn universal_binary_gives_its_arm64_slice() {
    let mut raw = fat_header(&[(0x0100_0007, 48, 4), (0x0100_000c, 52, 4)]);
    assert_eq!(raw.len(), 48);
    raw.extend_from_slice(&[1, 2, 3, 4, 5, 6, 7, 8]);
    assert_eq!(MachOLoader::extract_arm64_slice(&raw).unwrap(), vec![5, 6, 7, 8]);
}

#[test]
fn universal_binary_without_arm64_is_kept_whole() {
    let mut raw = fat_header(&[(0x0100_0007, 28, 4)]);
    raw.extend_from_slice(&[9, 9, 9, 9]);
    assert_eq!(MachOLoader::extract_arm64_slice(&raw).unwrap(), raw);
    let short = vec![0xca, 0xfe, 0xba];
    assert_eq!(MachOLoader::extract_arm64_slice(&short).unwrap(), short);
}

#[test]
fn slice_past_the_end_is_skipped() {
    let mut raw = fat_header(&[(0x0100_000c, 1000, 4), (0x0100_000e, 48, 2)]);
    raw.extend_from_slice(&[7, 7, 8, 8]);
    assert_eq!(MachOLoader::extract_arm64_slice(&raw).unwrap(), vec![7, 7]);
}

#[test]
fn trampolines_are_handed_out_once_per_name() {
    let mut thunks: Vec<(u64, String)> = Vec::new();
    assert_eq!(thunk_for_exec(&mut thunks, &"puts".to_string()), 0x7f00_0000);
    assert_eq!(thunk_for_exec(&mut thunks, &"malloc".to_string()), 0x7f00_0008);
    assert_eq!(thunk_for_exec(&mut thunks, &"puts".to_string()), 0x7f00_0000);
    assert_eq!(thunks, vec![(0x7f00_0000, "puts".to_string()), (0x7f00_0008, "malloc".to_string())]);
}

/// A Mach-O executable with one segment (`__TEXT`, at address zero, holding the whole
/// file) and an entry point at offset 0x80.
fn tiny_macho() -> Vec<u8> {
    let mut v = Vec::new();
    for w in [0xfeed_facfu32, 0x0100_000c, 0, 2, 2, 96, 0, 0] {
        push_u32(&mut v, w);
    }
    push_u32(&mut v, 0x19);
    push_u32(&mut v, 72);
    let mut name = b"__TEXT".to_vec();
    name.resize(16, 0);
    v.extend_from_slice(&name);
    push_u64(&mut v, 0);
    push_u64(&mut v, 0x1000);
    push_u64(&mut v, 0);
    push_u64(&mut v, 0x88);
    push_u32(&mut v, 5);
    push_u32(&mut v, 5);
    push_u32(&mut v, 0);
    push_u32(&mut v, 0);
    push_u32(&mut v, 0x8000_0028);
    push_u32(&mut v, 24);
    push_u64(&mut v, 0x80);
    push_u64(&mut v, 0);
    assert_eq!(v.len(), 0x80);
    v.extend_from_slice(&[0x1f, 0x20, 0x03, 0xd5, 0xc0, 0x03, 0x5f, 0xd6]);
    v
}

#[test]
fn macho_image_is_laid_out() {
    let data = tiny_macho();
    let mut mem = MemoryManager::new();
    let args = vec![b"tool".to_vec()];
    let loaded = MachOLoader::load_image(&data, &b"/usr/bin/tool".to_vec(), &args, &mut mem).unwrap();
    assert_eq!(loaded.entry_point, 0x1_0000_0080);
    assert_eq!(loaded.target_os, TargetOs::Darwin);
    assert!(loaded.dynamic_thunks.is_empty());
    assert_eq!(mem.read(0x1_0000_0080, 8).unwrap(), data[0x80..0x88].to_vec());
    let sp = loaded.stack_pointer;
    assert_eq!(read_u64(&mem, sp), 1);
    assert_eq!(mem.read_string(read_u64(&mem, sp + 8)).unwrap(), b"tool".to_vec());
    assert_eq!(read_u64(&mem, sp + 16), 0);
    assert_eq!(mem.read_string(read_u64(&mem, sp + 24)).unwrap(), b"PATH=/usr/local/bin:/usr/bin:/bin".to_vec());
    let apple0 = read_u64(&mem, sp + 8 * 7);
    assert_eq!(mem.read_string(apple0).unwrap(), b"/usr/bin/tool".to_vec());
    assert_eq!(mem.brk_base, 0x1_0000_1000);
}

#[test]
fn universal_binary_slice_is_loaded() {
    let image = tiny_macho();
    let mut raw = fat_header(&[(0x0100_000c, 28, image.len() as u32)]);
    raw.extend_from_slice(&image);
    let mut mem = MemoryManager::new();
    let loaded = AutoLoader::load_image(&raw, &b"/t".to_vec(), &Vec::new(), &mut mem).unwrap().unwrap();
    assert_eq!(loaded.entry_point, 0x1_0000_0080);
    assert_eq!(read_u64(&mem, loaded.stack_pointer), 0);
}

#[test]
fn segment_steps_from_given_data() {
    let mut ops: Vec<LayoutOp> = Vec::new();
    let segs = vec![(0x1010u64, 0x20u64), (0x9000, 0)];
    let datas: Vec<Result<Vec<u8>, String>> = vec![Ok(vec![1, 2, 3]), Err("never read".to_string())];
    assert_eq!(push_segment_steps_from(&mut ops, &segs, &datas, 0x4000), (0x5030, false));
    let mut mem = MemoryManager::new();
    apply_layout(&mut mem, &ops).unwrap();
    assert_eq!(mem.read(0x5010, 5).unwrap(), vec![1, 2, 3, 0, 0]);
    assert_eq!(mem.segments[0].addr, 0x5000);
    assert_eq!(mem.segments[0].size, 0x1000);

    let mut ops: Vec<LayoutOp> = Vec::new();
    let datas: Vec<Result<Vec<u8>, String>> = vec![Err("bad".to_string()), Ok(Vec::new())];
    assert_eq!(push_segment_steps_from(&mut ops, &segs, &datas, 0), (0, true));
    let mut mem = MemoryManager::new();
    match apply_layout(&mut mem, &ops).unwrap_err() {
        Error::LoadError(m) => assert_eq!(m, "Segment data error: bad"),
        other => panic!("unexpected {:?}", other),
    }
}
