//! Darwin (AArch64) system calls: the BSD number in the low 24 bits of X16.

use vstd::prelude::*;
use crate::cpu::{CpuContext, CpuView};
use crate::memory::{map_outcome, read_spec, MemView, MemoryManager, PROT_EXEC, PROT_READ, PROT_WRITE};
use crate::syscall::SyscallAction;
use crate::syscall::linux::{done, mem_err};
use crate::Error;

verus! {

/// Darwin system calls.
pub struct DarwinSyscall;

/// What `plan` does for the Darwin call `nr`: exit (1) marks the guest exited with the
/// code in W0; write (4) hands the bytes at X1 to the host's output for descriptors 1 and
/// 2 when they are mapped and answers the count in X2; mmap (199) maps X1 bytes at X0
/// (0x7f030000 for zero) and answers that address; any other call answers 0.
pub open spec fn darwin_plan_post(nr: u64, c0: CpuView, m0: MemView, c1: CpuView, m1: MemView, r: Result<SyscallAction, Error>) -> bool {
    let bsd = nr & 0x00ff_ffff;
    let a0 = c0.xreg(0);
    let a1 = c0.xreg(1);
    let a2 = c0.xreg(2);
    if bsd == 1 {
        c1 == CpuView { exited: true, exit_code: a0 as i32, ..c0 } && m1 == m0 && done(r, (a0 as i32) as i64)
    } else if bsd == 4 {
        let count = a2 as usize;
        c1 == c0.with_x(0, count as u64) && m1 == m0 && match read_spec(m0.segs, a1 as int, count as nat) {
            Some(data) => if a0 == 1 || a0 == 2 {
                r matches Ok(SyscallAction::Print { data: d, result }) && d@ == data && result == count as i64
            } else {
                done(r, count as i64)
            },
            None => done(r, count as i64),
        }
    } else if bsd == 199 {
        let target = if a0 == 0 { 0x7f030000u64 } else { a0 };
        let (m2, o) = map_outcome(m0, target, (a1 as usize) as nat, PROT_READ | PROT_WRITE | PROT_EXEC);
        m1 == m2 && match o {
            Ok(_) => c1 == c0.with_x(0, target) && done(r, target as i64),
            Err(msg) => c1 == c0 && mem_err(r, msg),
        }
    } else {
        c1 == c0.with_x(0, 0) && m1 == m0 && done(r, 0)
    }
}

impl DarwinSyscall {
    /// Decides the Darwin system call `nr`.
    pub fn plan(nr: u64, ctx: &mut CpuContext, mem: &mut MemoryManager) -> (r: Result<SyscallAction, Error>)
        requires
            old(mem).wf(),
        ensures
            final(mem).wf(),
            darwin_plan_post(nr, old(ctx)@, old(mem)@, final(ctx)@, final(mem)@, r),
    {
        let bsd = nr & 0x00ff_ffff;
        let a0 = ctx.get_x(0);
        let a1 = ctx.get_x(1);
        let a2 = ctx.get_x(2);
        if bsd == 1 {
            let code = a0 as i32;
            ctx.exited = true;
            ctx.exit_code = code;
            return Ok(SyscallAction::Done(code as i64));
        }
        if bsd == 4 {
            let count = a2 as usize;
            let action = match mem.read(a1, count) {
                Ok(data) => if a0 == 1 || a0 == 2 {
                    SyscallAction::Print { data, result: count as i64 }
                } else {
                    SyscallAction::Done(count as i64)
                },
                Err(_) => SyscallAction::Done(count as i64),
            };
            ctx.set_x(0, count as u64);
            return Ok(action);
        }
        if bsd == 199 {
            let target = if a0 == 0 { 0x7f030000u64 } else { a0 };
            match mem.map_anonymous(target, a1 as usize) {
                Ok(_) => {},
                Err(e) => {
                    return Err(e);
                },
            }
            ctx.set_x(0, target);
            return Ok(SyscallAction::Done(target as i64));
        }
        ctx.set_x(0, 0);
        Ok(SyscallAction::Done(0))
    }
}

} // verus!
