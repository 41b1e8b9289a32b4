use maarch64::cpu::CpuContext;
use maarch64::interp::step::Fetched;
use maarch64::interp::Interpreter;
use maarch64::loader::TargetOs;
use maarch64::memory::MemoryManager;
use maarch64::syscall::linux::OpenFlagConsts;
use maarch64::syscall::{translate_open_flags, DarwinSyscall, HostCall, HostReply, LinuxSyscall, SyscallAction, SyscallDispatcher};
use maarch64::Error;

fn with_call(nr: u64, args: &[u64]) -> (CpuContext, MemoryManager) {
    let mut ctx = CpuContext::new();
    ctx.set_x(8, nr);
    for (i, a) in args.iter().enumerate() {
        ctx.set_x(i, *a);
    }
    let mut mem = MemoryManager::new();
    mem.map_anonymous(0x10_0000, 0x1000).unwrap();
    (ctx, mem)
}

fn done(r: Result<SyscallAction, Error>) -> i64 {
    match r.unwrap() {
        SyscallAction::Done(v) => v,
        other => panic!("unexpected {:?}", other),
    }
}

#[test]
fn exit_marks_the_guest_exited() {
    let (mut ctx, mut mem) = with_call(93, &[3]);
    assert_eq!(done(LinuxSyscall::plan(&mut ctx, &mut mem)), 3);
    assert!(ctx.exited);
    assert_eq!(ctx.exit_code, 3);
    let (mut ctx, mut mem) = with_call(94, &[0x1_0000_0007]);
    assert_eq!(done(SyscallDispatcher::plan(&mut ctx, &mut mem)), 7);
    assert_eq!(ctx.exit_code, 7);
}

#[test]
fn write_to_stdout_is_printed() {
    let (mut ctx, mut mem) = with_call(64, &[1, 0x10_0000, 5]);
    mem.write(0x10_0000, b"hello").unwrap();
    match LinuxSyscall::plan(&mut ctx, &mut mem).unwrap() {
        SyscallAction::Print { data, result } => {
            assert_eq!(data, b"hello".to_vec());
            assert_eq!(result, 5);
        },
        other => panic!("unexpected {:?}", other),
    }
    assert_eq!(ctx.get_x(0), 5);
}

#[test]
fn write_to_other_descriptor_is_dropped() {
    let (mut ctx, mut mem) = with_call(64, &[7, 0x10_0000, 3]);
    assert_eq!(done(LinuxSyscall::plan(&mut ctx, &mut mem)), 3);
    assert_eq!(ctx.get_x(0), 3);
}

#[test]
fn set_tls_pointer() {
    let (mut ctx, mut mem) = with_call(169, &[0xabcd_0000]);
    assert_eq!(done(LinuxSyscall::plan(&mut ctx, &mut mem)), 0);
    assert_eq!(ctx.tpidr_el0, 0xabcd_0000);
    assert_eq!(ctx.get_x(0), 0);
}

#[test]
fn mmap_with_null_address_uses_the_fixed_base() {
    let (mut ctx, mut mem) = with_call(222, &[0, 0x2000]);
    assert_eq!(done(LinuxSyscall::plan(&mut ctx, &mut mem)), 0x7f03_0000);
    assert_eq!(ctx.get_x(0), 0x7f03_0000);
    assert_eq!(mem.read(0x7f03_1ff8, 8).unwrap(), vec![0u8; 8]);
}

#[test]
fn brk_queries_and_grows() {
    let (mut ctx, mut mem) = with_call(214, &[0]);
    mem.set_brk_base(0x60_0000);
    assert_eq!(done(LinuxSyscall::plan(&mut ctx, &mut mem)), 0x60_0000);
    ctx.set_x(0, 0x60_2000);
    assert_eq!(done(LinuxSyscall::plan(&mut ctx, &mut mem)), 0x60_2000);
    assert_eq!(mem.read(0x60_1000, 4).unwrap(), vec![0u8; 4]);
}

#[test]
fn unknown_call_returns_zero() {
    let (mut ctx, mut mem) = with_call(4000, &[55]);
    assert_eq!(done(LinuxSyscall::plan(&mut ctx, &mut mem)), 0);
    assert_eq!(ctx.get_x(0), 0);
}

#[test]
fn process_id_comes_from_the_host() {
    let (mut ctx, mut mem) = with_call(172, &[]);
    match LinuxSyscall::plan(&mut ctx, &mut mem).unwrap() {
        SyscallAction::Host(HostCall::ProcessId) => {},
        other => panic!("unexpected {:?}", other),
    }
    assert_eq!(LinuxSyscall::complete(&mut ctx, &mut mem, HostReply::Id(4321)), 4321);
    assert_eq!(ctx.get_x(0), 4321);
}

#[test]
fn failed_host_call_returns_minus_errno() {
    let (mut ctx, mut mem) = with_call(198, &[2, 1, 0]);
    match LinuxSyscall::plan(&mut ctx, &mut mem).unwrap() {
        SyscallAction::Host(HostCall::Socket { domain, ty, protocol }) => {
            assert_eq!((domain, ty, protocol), (2, 1, 0));
        },
        other => panic!("unexpected {:?}", other),
    }
    assert_eq!(LinuxSyscall::complete(&mut ctx, &mut mem, HostReply::Status { ret: -1, errno: 13 }), -13);
    assert_eq!(ctx.get_x(0), (-13i64) as u64);
}

#[test]
fn symlink_reads_both_paths() {
    let (mut ctx, mut mem) = with_call(17, &[0, 0x10_0000, 0x10_0100]);
    mem.write(0x10_0000, b"/a\0").unwrap();
    mem.write(0x10_0100, b"/b/c\0").unwrap();
    match LinuxSyscall::plan(&mut ctx, &mut mem).unwrap() {
        SyscallAction::Host(HostCall::Symlink { target, link }) => {
            assert_eq!(target, b"/a".to_vec());
            assert_eq!(link, b"/b/c".to_vec());
        },
        other => panic!("unexpected {:?}", other),
    }
}

#[test]
fn darwin_exit_and_unknown() {
    let mut ctx = CpuContext::new();
    let mut mem = MemoryManager::new();
    ctx.set_x(0, 9);
    ctx.set_x(16, 0x0200_0001);
    assert_eq!(done(SyscallDispatcher::plan_for_os(TargetOs::Darwin, &mut ctx, &mut mem)), 9);
    assert!(ctx.exited);
    let mut ctx = CpuContext::new();
    ctx.set_x(0, 5);
    assert_eq!(done(DarwinSyscall::plan(77, &mut ctx, &mut mem)), 0);
    assert_eq!(ctx.get_x(0), 0);
}

#[test]
fn open_flags_translation() {
    let host = OpenFlagConsts {
        accmode: 3,
        creat: 0x40,
        excl: 0x80,
        noctty: 0x100,
        trunc: 0x200,
        append: 0x400,
        nonblock: 0x800,
        cloexec: 0x80000,
        directory: 0x10_0000,
        nofollow: 0x2_0000,
        direct: 0x4000,
        noatime: 0x4_0000,
        path: 0x20_0000,
    };
    assert_eq!(translate_open_flags(0x41, &host), 0x41);
    assert_eq!(translate_open_flags(0x4000, &host), 0x10_0000);
    assert_eq!(translate_open_flags(0x8000 | 0x10000 | 0x2, &host), 0x2_0000 | 0x4000 | 0x2);
    assert_eq!(translate_open_flags(0x40_0000, &host), 0x20_0000);
    assert_eq!(translate_open_flags(0x1000_0000, &host), 0);
}

#[test]
fn nothing_runs_after_exit() {
    let (mut ctx, mut mem) = with_call(94, &[1]);
    ctx.pc = 0x10_0000;
    done(LinuxSyscall::plan(&mut ctx, &mut mem));
    let before = ctx.clone();
    assert_eq!(Interpreter::fetch(&mut ctx, &mut mem).unwrap(), Fetched::Exited);
    assert_eq!(ctx.pc, before.pc);
    assert!(!Interpreter::finish_syscall(&mut ctx, 0x10_0000));
    assert_eq!(ctx.pc, before.pc);
}

#[test]
fn symlink_with_unreadable_path_reports_the_fault() {
    let (mut ctx, mut mem) = with_call(17, &[0, 0x10_0000, 0x20_0000]);
    mem.write(0x10_0000, b"/a\0").unwrap();
    match LinuxSyscall::plan(&mut ctx, &mut mem).unwrap_err() {
        Error::MemoryError(m) => assert_eq!(m, "Address 0x200000 (len 1) out of mapped bounds. Segments: [0x100000..0x101000]"),
        other => panic!("unexpected {:?}", other),
    }
    let (mut ctx, mut mem) = with_call(57, &[0x10_0ffe]);
    mem.write(0x10_0ffe, b"ab").unwrap();
    match LinuxSyscall::plan(&mut ctx, &mut mem).unwrap_err() {
        Error::MemoryError(m) => assert_eq!(m, "Address 0x101000 (len 1) out of mapped bounds. Segments: [0x100000..0x101000]"),
        other => panic!("unexpected {:?}", other),
    }
}
