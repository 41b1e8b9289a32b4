//! Linux (AArch64) system calls: the number in X8, arguments in X0..X5, the result in X0.

use vstd::prelude::*;
use crate::cpu::{CpuContext, CpuView};
use crate::interp::{le_bytes, le_value};
use crate::interp::memops::{le_bytes_vec, le_value_vec};
use crate::memory::{
    chunk_write, cstring_at, is_memory_error, lemma_cstring_unique, lemma_read_len, map_outcome, brk_outcome, mem_result,
    read_spec, zeros, MemView, MemoryManager, PROT_EXEC, PROT_READ, PROT_WRITE,
};
use crate::syscall::{HostCall, HostReply, SyscallAction};
use crate::Error;

verus! {

/// The host's values of the open flags that a guest's flags are translated to.
pub struct OpenFlagConsts {
    pub accmode: i32,
    pub creat: i32,
    pub excl: i32,
    pub noctty: i32,
    pub trunc: i32,
    pub append: i32,
    pub nonblock: i32,
    pub cloexec: i32,
    pub directory: i32,
    pub nofollow: i32,
    pub direct: i32,
    pub noatime: i32,
    pub path: i32,
}

/// The host flags for AArch64 open flags: the access mode, create, exclusive, no
/// controlling terminal, truncate, append, non-blocking and close-on-exec bits are kept
/// where the host's masks cover them; the AArch64 directory (0x4000), no-follow (0x8000),
/// direct (0x10000), no-atime (0x40000) and path (0x400000) bits become the host's.
pub open spec fn open_flags_spec(f: i32, h: OpenFlagConsts) -> i32 {
    let common = h.accmode | h.creat | h.excl | h.noctty | h.trunc | h.append | h.nonblock | h.cloexec;
    (f & common) | (if f & 0x4000 != 0 { h.directory } else { 0 }) | (if f & 0x8000 != 0 { h.nofollow } else { 0 })
        | (if f & 0x10000 != 0 { h.direct } else { 0 }) | (if f & 0x40000 != 0 { h.noatime } else { 0 })
        | (if f & 0x400000 != 0 { h.path } else { 0 })
}

/// Translates AArch64 open flags into the host's.
pub fn translate_open_flags(aarch64_flags: i32, host: &OpenFlagConsts) -> (r: i32)
    ensures
        r == open_flags_spec(aarch64_flags, *host),
{
    let common = host.accmode | host.creat | host.excl | host.noctty | host.trunc | host.append | host.nonblock
        | host.cloexec;
    let mut flags = aarch64_flags & common;
    flags = flags | (if aarch64_flags & 0x4000 != 0 { host.directory } else { 0 });
    flags = flags | (if aarch64_flags & 0x8000 != 0 { host.nofollow } else { 0 });
    flags = flags | (if aarch64_flags & 0x10000 != 0 { host.direct } else { 0 });
    flags = flags | (if aarch64_flags & 0x40000 != 0 { host.noatime } else { 0 });
    flags = flags | (if aarch64_flags & 0x400000 != 0 { host.path } else { 0 });
    flags
}

/// Linux system calls.
pub struct LinuxSyscall;

/// `-errno` as a result.
pub open spec fn neg_errno(e: i32) -> i64 {
    vstd::wrapping::i32_specs::wrapping_sub(0, e) as i64
}

/// The `statfs` record the emulator reports: ext filesystem magic, 4096-byte blocks,
/// 1000000 blocks of which 500000 free and 500000 available, zeros after.
pub open spec fn statfs_bytes() -> Seq<u8> {
    le_bytes(0xef53, 8) + le_bytes(4096, 8) + le_bytes(1000000, 8) + le_bytes(500000, 8) + le_bytes(500000, 8)
        + zeros(80)
}

/// The segments after `data` is written at `addr`, faults ignored.
pub open spec fn written(m: MemView, addr: u64, data: Seq<u8>) -> MemView {
    MemView { segs: chunk_write(m.segs, addr as int, data).0, ..m }
}

/// A terminated string can be read at `a`.
pub open spec fn readable_cstring(m: MemView, a: u64) -> bool {
    exists|v: Seq<u8>| cstring_at(m.segs, a as int, v)
}

/// The message of the fault that stops reading the string at `a`: the first unmapped
/// byte reached before a zero byte.
pub open spec fn path_fault_message(m: MemView, a: u64) -> Seq<char> {
    let n = choose|n: int| 0 <= n && a + n <= u64::MAX && #[trigger] crate::memory::cstring_fault(m.segs, a as int, n);
    crate::memory::bounds_message(m.segs, (a + n) as u64, 1)
}

/// A string read stops at one unmapped byte at most: the first one.
proof fn lemma_cstring_fault_unique(segs: Seq<crate::memory::SegView>, a: int, n1: int, n2: int)
    requires
        0 <= n1,
        0 <= n2,
        crate::memory::cstring_fault(segs, a, n1),
        crate::memory::cstring_fault(segs, a, n2),
    ensures
        n1 == n2,
{
    if n1 < n2 {
        assert(crate::memory::byte_at(segs, a + n1) is Some);
    } else if n2 < n1 {
        assert(crate::memory::byte_at(segs, a + n2) is Some);
    }
}

/// `v` is the string a nonzero pointer `a` points to, or empty for a null pointer.
pub open spec fn path_at(m: MemView, a: u64, v: Seq<u8>) -> bool {
    if a == 0 { v.len() == 0 } else { cstring_at(m.segs, a as int, v) }
}

/// `r` is `Done(v)`.
pub open spec fn done(r: Result<SyscallAction, Error>, v: i64) -> bool {
    r matches Ok(SyscallAction::Done(x)) && x == v
}

/// `r` is a memory error with message `m`.
pub open spec fn mem_err(r: Result<SyscallAction, Error>, m: Seq<char>) -> bool {
    r is Err && is_memory_error(r->Err_0, m)
}

/// What `plan` does for the Linux call in X8: the new state `c1`, `m1` and the answer `r`.
/// Calls the host makes (socket calls, symlink, kill, fcntl, uname, identifiers, close)
/// change nothing here and are handed back with their arguments. Exit (93, 94) marks the
/// guest exited with the code in W0; the thread exit 96 also clears the word at X0 (if
/// nonzero). Write (64) hands the bytes to the host's output for descriptors 1 and 2 when
/// they are mapped and answers the count. statfs (43, 44) writes a fixed record at X1
/// (a fault is an error), futex (98) compares or wakes, mmap (222) maps at X0 (0x7f030000
/// for zero), brk (214) moves the break, set_tid_address (169) sets the thread pointer;
/// execve (57) answers -2; munmap, mprotect, set_robust_list and unknown calls answer 0.
pub open spec fn linux_plan_post(c0: CpuView, m0: MemView, c1: CpuView, m1: MemView, r: Result<SyscallAction, Error>) -> bool {
    let nr = c0.xreg(8);
    let a0 = c0.xreg(0);
    let a1 = c0.xreg(1);
    let a2 = c0.xreg(2);
    let a3 = c0.xreg(3);
    let a4 = c0.xreg(4);
    if nr == 43 || nr == 44 {
        if a1 == 0 {
            c1 == c0.with_x(0, 0) && m1 == m0 && done(r, 0)
        } else if chunk_write(m0.segs, a1 as int, statfs_bytes()).1 {
            c1 == c0.with_x(0, 0) && m1 == written(m0, a1, statfs_bytes()) && done(r, 0)
        } else {
            c1 == c0 && m1 == written(m0, a1, statfs_bytes())
                && mem_err(r, crate::memory::bounds_message(chunk_write(m0.segs, a1 as int, statfs_bytes()).0, a1, 120))
        }
    } else if nr == 17 {
        c1 == c0 && m1 == m0 && (r is Ok <==> ((a1 == 0 || readable_cstring(m0, a1)) && (a2 == 0 || readable_cstring(m0, a2))))
            && (r is Ok ==> (r matches Ok(SyscallAction::Host(HostCall::Symlink { target, link }))
                && path_at(m0, a1, target@) && path_at(m0, a2, link@)))
            && (r is Err ==> mem_err(r, if a1 != 0 && !readable_cstring(m0, a1) {
                path_fault_message(m0, a1)
            } else {
                path_fault_message(m0, a2)
            }))
    } else if nr == 57 {
        if a0 != 0 && !readable_cstring(m0, a0) {
            c1 == c0 && m1 == m0 && mem_err(r, path_fault_message(m0, a0))
        } else {
            c1 == c0.with_x(0, (-2i64) as u64) && m1 == m0 && done(r, -2i64)
        }
    } else if nr == 93 || nr == 94 {
        c1 == CpuView { exited: true, exit_code: a0 as i32, ..c0 } && m1 == m0 && done(r, (a0 as i32) as i64)
    } else if nr == 96 {
        c1 == CpuView { exited: true, exit_code: 0, ..c0 } && done(r, 0)
            && m1 == (if a0 != 0 { written(m0, a0, zeros(4)) } else { m0 })
    } else if nr == 64 {
        let count = a2 as usize;
        c1 == c0.with_x(0, count as u64) && m1 == m0 && match read_spec(m0.segs, a1 as int, count as nat) {
            Some(data) => if a0 == 1 || a0 == 2 {
                r matches Ok(SyscallAction::Print { data: d, result }) && d@ == data && result == count as i64
            } else {
                done(r, count as i64)
            },
            None => done(r, count as i64),
        }
    } else if nr == 98 {
        let op = (a1 as i32) & 0x7f;
        let val = a2 as u32;
        m1 == m0 && if op == 0 {
            if a0 != 0 && read_spec(m0.segs, a0 as int, 4) is Some
                && le_value(read_spec(m0.segs, a0 as int, 4)->0, 4) as u32 != val {
                c1 == c0.with_x(0, (-11i64) as u64) && done(r, -11i64)
            } else {
                c1 == c0.with_x(0, 0) && done(r, 0)
            }
        } else if op == 1 {
            c1 == c0.with_x(0, val as u64) && done(r, val as i64)
        } else {
            c1 == c0.with_x(0, 0) && done(r, 0)
        }
    } else if nr == 222 {
        let target = if a0 == 0 { 0x7f030000u64 } else { a0 };
        let (m2, o) = map_outcome(m0, target, (a1 as usize) as nat, PROT_READ | PROT_WRITE | PROT_EXEC);
        m1 == m2 && match o {
            Ok(_) => c1 == c0.with_x(0, target) && done(r, target as i64),
            Err(msg) => c1 == c0 && mem_err(r, msg),
        }
    } else if nr == 214 {
        if a0 == 0 {
            c1 == c0.with_x(0, m0.brk_current) && m1 == m0 && done(r, m0.brk_current as i64)
        } else {
            let (m2, o) = brk_outcome(m0, a0);
            m1 == m2 && match o {
                Ok(v) => c1 == c0.with_x(0, v) && done(r, v as i64),
                Err(msg) => c1 == c0 && mem_err(r, msg),
            }
        }
    } else if nr == 169 {
        c1 == CpuView { tpidr_el0: a0, ..c0 }.with_x(0, 0) && m1 == m0 && done(r, 0)
    } else if nr == 198 {
        c1 == c0 && m1 == m0 && (r matches Ok(SyscallAction::Host(HostCall::Socket { domain, ty, protocol }))
            && domain == a0 as i32 && ty == a1 as i32 && protocol == a2 as i32)
    } else if nr == 199 || nr == 200 {
        c1 == c0 && m1 == m0 && if nr == 199 {
            r matches Ok(SyscallAction::Host(HostCall::GetSockName { fd })) && fd == a0 as i32
        } else {
            r matches Ok(SyscallAction::Host(HostCall::GetPeerName { fd })) && fd == a0 as i32
        }
    } else if nr == 203 {
        c1 == c0 && m1 == m0 && (r matches Ok(SyscallAction::Host(HostCall::Listen { fd, backlog }))
            && fd == a0 as i32 && backlog == a1 as i32)
    } else if nr == 208 {
        let len = a4 as u32;
        c1 == c0 && m1 == m0 && (r matches Ok(SyscallAction::Host(HostCall::SetSockOpt { fd, level, name, value }))
            && fd == a0 as i32 && level == a1 as i32 && name == a2 as i32
            && value@ == (if a3 != 0 && len > 0 && read_spec(m0.segs, a3 as int, len as nat) is Some {
                read_spec(m0.segs, a3 as int, len as nat)->0
            } else {
                zeros(len as nat)
            }))
    } else if nr == 209 {
        c1 == c0 && m1 == m0 && (r matches Ok(SyscallAction::Host(HostCall::GetSockOpt { fd, level, name }))
            && fd == a0 as i32 && level == a1 as i32 && name == a2 as i32)
    } else if nr == 78 {
        c1 == c0 && m1 == m0 && (r matches Ok(SyscallAction::Host(HostCall::Kill { pid, sig })) && pid == a0 as i32
            && sig == a1 as i32)
    } else if nr == 63 {
        c1 == c0 && m1 == m0 && (r matches Ok(SyscallAction::Host(HostCall::Fcntl { fd, cmd, arg })) && fd == a0 as i32
            && cmd == a1 as i32 && arg == a2)
    } else if nr == 62 {
        c1 == c0 && m1 == m0 && (r matches Ok(SyscallAction::Host(HostCall::Close { fd })) && fd == a0 as i32)
    } else if nr == 160 {
        c1 == c0 && m1 == m0 && (r matches Ok(SyscallAction::Host(HostCall::Uname)))
    } else if nr == 56 || nr == 172 {
        c1 == c0 && m1 == m0 && (r matches Ok(SyscallAction::Host(HostCall::ProcessId)))
    } else if nr == 174 {
        c1 == c0 && m1 == m0 && (r matches Ok(SyscallAction::Host(HostCall::ParentProcessId)))
    } else if nr == 175 {
        c1 == c0 && m1 == m0 && (r matches Ok(SyscallAction::Host(HostCall::UserId)))
    } else if nr == 176 {
        c1 == c0 && m1 == m0 && (r matches Ok(SyscallAction::Host(HostCall::EffectiveUserId)))
    } else if nr == 177 {
        c1 == c0 && m1 == m0 && (r matches Ok(SyscallAction::Host(HostCall::GroupId)))
    } else if nr == 178 {
        c1 == c0 && m1 == m0 && (r matches Ok(SyscallAction::Host(HostCall::EffectiveGroupId)))
    } else {
        c1 == c0.with_x(0, 0) && m1 == m0 && done(r, 0)
    }
}

/// The status a reply carries (an identifier's value for an identifier).
pub open spec fn reply_status(r: HostReply) -> (i64, i32) {
    match r {
        HostReply::Status { ret, errno } => (ret, errno),
        HostReply::Filled { ret, errno, .. } => (ret, errno),
        HostReply::Id(v) => (v as i64, 0),
    }
}

/// The identifier a reply carries (a status's return value otherwise).
pub open spec fn reply_id(r: HostReply) -> u64 {
    match r {
        HostReply::Id(v) => v,
        HostReply::Status { ret, .. } => ret as u64,
        HostReply::Filled { ret, .. } => ret as u64,
    }
}

/// The bytes a reply carries (none unless it filled a buffer).
pub open spec fn reply_data(r: HostReply) -> Seq<u8> {
    match r {
        HostReply::Filled { data, .. } => data@,
        _ => Seq::empty(),
    }
}

/// What `complete` does with the host's reply for the Linux call in X8. A negative
/// status answers `-errno`. Otherwise: socket and fcntl answer the status; getsockname,
/// getpeername and getsockopt copy the filled bytes to the buffer at X1 (X3) and their
/// count, as 4 bytes, to X2 (X4) when both pointers are nonzero, faults ignored, and
/// answer 0; listen, setsockopt, kill, close, symlink and uname answer 0. The
/// identifier calls answer the identifier; clone answers the process identifier plus
/// one (as 32 bits), stored as 4 bytes at the nonzero child and parent TID pointers
/// (X4, X2) for a thread.
pub open spec fn linux_complete_post(c0: CpuView, m0: MemView, reply: HostReply, c1: CpuView, m1: MemView, r: i64) -> bool {
    let nr = c0.xreg(8);
    let (ret, errno) = reply_status(reply);
    let id = reply_id(reply);
    if nr == 172 || nr == 174 || nr == 175 || nr == 176 || nr == 177 || nr == 178 {
        c1 == c0.with_x(0, id) && m1 == m0 && r == id as i64
    } else if nr == 56 {
        let child = (vstd::wrapping::u32_specs::wrapping_add(id as u32, 1)) as u64;
        let tid = le_bytes(child, 4);
        c1 == c0.with_x(0, child) && r == child as i64 && m1 == (if c0.xreg(0) & 0x10000 != 0 {
            let m2 = if c0.xreg(4) != 0 { written(m0, c0.xreg(4), tid) } else { m0 };
            if c0.xreg(2) != 0 { written(m2, c0.xreg(2), tid) } else { m2 }
        } else {
            m0
        })
    } else if nr == 160 {
        c1 == c0.with_x(0, 0) && m1 == m0 && r == 0
    } else if ret < 0 {
        c1 == c0.with_x(0, neg_errno(errno) as u64) && m1 == m0 && r == neg_errno(errno)
    } else if nr == 198 || nr == 63 {
        c1 == c0.with_x(0, ret as u64) && m1 == m0 && r == ret
    } else if nr == 199 || nr == 200 || nr == 209 {
        let (p, lp) = if nr == 209 { (c0.xreg(3), c0.xreg(4)) } else { (c0.xreg(1), c0.xreg(2)) };
        let data = reply_data(reply);
        c1 == c0.with_x(0, 0) && r == 0 && m1 == (if p != 0 && lp != 0 {
            written(written(m0, p, data), lp, le_bytes((data.len() as u32) as u64, 4))
        } else {
            m0
        })
    } else {
        c1 == c0.with_x(0, 0) && m1 == m0 && r == 0
    }
}

/// Reads the string at a nonzero pointer; a null pointer gives an empty string.
fn read_path(mem: &MemoryManager, a: u64) -> (r: Result<Vec<u8>, Error>)
    requires
        mem.wf(),
    ensures
        r is Ok <==> (a == 0 || readable_cstring(mem@, a)),
        r matches Ok(v) ==> path_at(mem@, a, v@),
        r is Err ==> is_memory_error(r->Err_0, path_fault_message(mem@, a)),
{
    if a == 0 {
        return Ok(Vec::new());
    }
    let r = mem.read_string(a);
    proof {
        if r is Err {
            let e = r->Err_0;
            let n = choose|n: int| 0 <= n && a + n <= u64::MAX && #[trigger] crate::memory::cstring_fault(mem@.segs, a as int, n)
                && is_memory_error(e, crate::memory::bounds_message(mem@.segs, (a + n) as u64, 1));
            let n2 = choose|n: int| 0 <= n && a + n <= u64::MAX && #[trigger] crate::memory::cstring_fault(mem@.segs, a as int, n);
            lemma_cstring_fault_unique(mem@.segs, a as int, n, n2);
            if readable_cstring(mem@, a) {
                let v = choose|v: Seq<u8>| cstring_at(mem@.segs, a as int, v);
                lemma_cstring_unique(mem@.segs, a as int, v, n);
            }
        }
    }
    r
}

/// Writes `data` at `addr`, ignoring a fault.
fn write_ignoring(mem: &mut MemoryManager, addr: u64, data: &[u8])
    requires
        old(mem).wf(),
    ensures
        final(mem).wf(),
        final(mem)@ == written(old(mem)@, addr, data@),
{
    let _ = mem.write(addr, data);
}

impl LinuxSyscall {
    /// Decides the Linux system call whose number is in X8.
    #[verifier::rlimit(40)]
    pub fn plan(ctx: &mut CpuContext, mem: &mut MemoryManager) -> (r: Result<SyscallAction, Error>)
        requires
            old(mem).wf(),
        ensures
            final(mem).wf(),
            linux_plan_post(old(ctx)@, old(mem)@, final(ctx)@, final(mem)@, r),
    {
        let nr = ctx.get_x(8);
        let a0 = ctx.get_x(0);
        let a1 = ctx.get_x(1);
        let a2 = ctx.get_x(2);
        let a3 = ctx.get_x(3);
        let a4 = ctx.get_x(4);
        if nr == 43 || nr == 44 {
            if a1 != 0 {
                let mut buf: Vec<u8> = le_bytes_vec(0xef53, 8);
                buf.append(&mut le_bytes_vec(4096, 8));
                buf.append(&mut le_bytes_vec(1000000, 8));
                buf.append(&mut le_bytes_vec(500000, 8));
                buf.append(&mut le_bytes_vec(500000, 8));
                let mut k: usize = 0;
                while k < 80
                    invariant
                        0 <= k <= 80,
                        buf@ == le_bytes(0xef53, 8) + le_bytes(4096, 8) + le_bytes(1000000, 8) + le_bytes(500000, 8)
                            + le_bytes(500000, 8) + zeros(k as nat),
                    decreases 80 - k,
                {
                    buf.push(0);
                    k = k + 1;
                    assert(buf@ =~= le_bytes(0xef53, 8) + le_bytes(4096, 8) + le_bytes(1000000, 8) + le_bytes(500000, 8)
                        + le_bytes(500000, 8) + zeros(k as nat));
                }
                assert(buf@ == statfs_bytes());
                match mem.write(a1, buf.as_slice()) {
                    Ok(()) => {},
                    Err(e) => {
                        return Err(e);
                    },
                }
            }
            ctx.set_x(0, 0);
            return Ok(SyscallAction::Done(0));
        }
        if nr == 17 {
            let target = read_path(mem, a1)?;
            let link = read_path(mem, a2)?;
            return Ok(SyscallAction::Host(HostCall::Symlink { target, link }));
        }
        if nr == 57 {
            let _ = read_path(mem, a0)?;
            ctx.set_x(0, (-2i64) as u64);
            return Ok(SyscallAction::Done(-2));
        }
        if nr == 93 || nr == 94 {
            let code = a0 as i32;
            ctx.exited = true;
            ctx.exit_code = code;
            return Ok(SyscallAction::Done(code as i64));
        }
        if nr == 96 {
            if a0 != 0 {
                let z = le_bytes_vec(0, 4);
                assert(z@ =~= zeros(4)) by {
                    assert forall|i: int| 0 <= i < 4 implies z@[i] == 0u8 by {
                        let sh: u64 = (8 * i) as u64;
                        assert(((0u64 >> sh) & 0xff) == 0) by (bit_vector);
                    }
                }
                write_ignoring(mem, a0, z.as_slice());
            }
            ctx.exited = true;
            ctx.exit_code = 0;
            return Ok(SyscallAction::Done(0));
        }
        if nr == 64 {
            let count = a2 as usize;
            let action = match mem.read(a1, count) {
                Ok(data) => if a0 == 1 || a0 == 2 {
                    SyscallAction::Print { data, result: count as i64 }
                } else {
                    SyscallAction::Done(count as i64)
                },
                Err(_) => SyscallAction::Done(count as i64),
            };
            ctx.set_x(0, count as u64);
            return Ok(action);
        }
        if nr == 98 {
            let op = (a1 as i32) & 0x7f;
            let val = a2 as u32;
            if op == 0 {
                if a0 != 0 {
                    proof { lemma_read_len(mem@.segs, a0 as int, 4); }
                    if let Ok(data) = mem.read(a0, 4) {
                        let cur = le_value_vec(&data, 4) as u32;
                        if cur != val {
                            ctx.set_x(0, (-11i64) as u64);
                            return Ok(SyscallAction::Done(-11));
                        }
                    }
                }
                ctx.set_x(0, 0);
                return Ok(SyscallAction::Done(0));
            } else if op == 1 {
                ctx.set_x(0, val as u64);
                return Ok(SyscallAction::Done(val as i64));
            } else {
                ctx.set_x(0, 0);
                return Ok(SyscallAction::Done(0));
            }
        }
        if nr == 222 {
            let target = if a0 == 0 { 0x7f030000u64 } else { a0 };
            match mem.map_anonymous(target, a1 as usize) {
                Ok(_) => {},
                Err(e) => {
                    return Err(e);
                },
            }
            ctx.set_x(0, target);
            return Ok(SyscallAction::Done(target as i64));
        }
        if nr == 214 {
            let new_brk = if a0 == 0 {
                mem.brk_current
            } else {
                match mem.set_brk(a0) {
                    Ok(v) => v,
                    Err(e) => {
                        return Err(e);
                    },
                }
            };
            ctx.set_x(0, new_brk);
            return Ok(SyscallAction::Done(new_brk as i64));
        }
        if nr == 169 {
            ctx.tpidr_el0 = a0;
            ctx.set_x(0, 0);
            return Ok(SyscallAction::Done(0));
        }
        if nr == 208 {
            let len = a4 as u32;
            let mut value: Vec<u8> = Vec::new();
            let mut k: u32 = 0;
            while k < len
                invariant
                    0 <= k <= len,
                    value@ == zeros(k as nat),
                decreases len - k,
            {
                value.push(0);
                k = k + 1;
                assert(value@ =~= zeros(k as nat));
            }
            if a3 != 0 && len > 0 {
                proof { lemma_read_len(mem@.segs, a3 as int, len as nat); }
                if let Ok(bytes) = mem.read(a3, len as usize) {
                    value = bytes;
                }
            }
            return Ok(SyscallAction::Host(HostCall::SetSockOpt { fd: a0 as i32, level: a1 as i32, name: a2 as i32, value }));
        }
        let call = if nr == 198 {
            HostCall::Socket { domain: a0 as i32, ty: a1 as i32, protocol: a2 as i32 }
        } else if nr == 199 {
            HostCall::GetSockName { fd: a0 as i32 }
        } else if nr == 200 {
            HostCall::GetPeerName { fd: a0 as i32 }
        } else if nr == 203 {
            HostCall::Listen { fd: a0 as i32, backlog: a1 as i32 }
        } else if nr == 209 {
            HostCall::GetSockOpt { fd: a0 as i32, level: a1 as i32, name: a2 as i32 }
        } else if nr == 78 {
            HostCall::Kill { pid: a0 as i32, sig: a1 as i32 }
        } else if nr == 63 {
            HostCall::Fcntl { fd: a0 as i32, cmd: a1 as i32, arg: a2 }
        } else if nr == 62 {
            HostCall::Close { fd: a0 as i32 }
        } else if nr == 160 {
            HostCall::Uname
        } else if nr == 56 || nr == 172 {
            HostCall::ProcessId
        } else if nr == 174 {
            HostCall::ParentProcessId
        } else if nr == 175 {
            HostCall::UserId
        } else if nr == 176 {
            HostCall::EffectiveUserId
        } else if nr == 177 {
            HostCall::GroupId
        } else if nr == 178 {
            HostCall::EffectiveGroupId
        } else {
            ctx.set_x(0, 0);
            return Ok(SyscallAction::Done(0));
        };
        Ok(SyscallAction::Host(call))
    }

    /// Finishes the Linux call in X8 with the host's reply to its `HostCall`.
    pub fn complete(ctx: &mut CpuContext, mem: &mut MemoryManager, reply: HostReply) -> (r: i64)
        requires
            old(mem).wf(),
        ensures
            final(mem).wf(),
            linux_complete_post(old(ctx)@, old(mem)@, reply, final(ctx)@, final(mem)@, r),
    {
        let nr = ctx.get_x(8);
        let (ret, errno, id) = match &reply {
            HostReply::Status { ret, errno } => (*ret, *errno, *ret as u64),
            HostReply::Filled { ret, errno, .. } => (*ret, *errno, *ret as u64),
            HostReply::Id(v) => (*v as i64, 0i32, *v),
        };
        if nr == 172 || nr == 174 || nr == 175 || nr == 176 || nr == 177 || nr == 178 {
            ctx.set_x(0, id);
            return id as i64;
        }
        if nr == 56 {
            let child = ((id as u32).wrapping_add(1)) as u64;
            if ctx.get_x(0) & 0x10000 != 0 {
                let tid = le_bytes_vec(child, 4);
                let ctid = ctx.get_x(4);
                let ptid = ctx.get_x(2);
                if ctid != 0 {
                    write_ignoring(mem, ctid, tid.as_slice());
                }
                if ptid != 0 {
                    write_ignoring(mem, ptid, tid.as_slice());
                }
            }
            ctx.set_x(0, child);
            return child as i64;
        }
        if nr == 160 {
            ctx.set_x(0, 0);
            return 0;
        }
        if ret < 0 {
            let neg = (0i32.wrapping_sub(errno)) as i64;
            ctx.set_x(0, neg as u64);
            return neg;
        }
        if nr == 198 || nr == 63 {
            ctx.set_x(0, ret as u64);
            return ret;
        }
        if nr == 199 || nr == 200 || nr == 209 {
            let (p, lp) = if nr == 209 { (ctx.get_x(3), ctx.get_x(4)) } else { (ctx.get_x(1), ctx.get_x(2)) };
            if p != 0 && lp != 0 {
                match &reply {
                    HostReply::Filled { data, .. } => {
                        write_ignoring(mem, p, data.as_slice());
                        let lb = le_bytes_vec((data.len() as u32) as u64, 4);
                        write_ignoring(mem, lp, lb.as_slice());
                    },
                    _ => {
                        let empty: Vec<u8> = Vec::new();
                        write_ignoring(mem, p, empty.as_slice());
                        let lb = le_bytes_vec(0, 4);
                        write_ignoring(mem, lp, lb.as_slice());
                    },
                }
            }
            ctx.set_x(0, 0);
            return 0;
        }
        ctx.set_x(0, 0);
        0
    }
}

} // verus!
