//! System-call handling for guest programs.
//!
//! Each call is decided here from the register state and guest memory. What needs the
//! host (a socket, a process identifier, output to the terminal) is handed back to the
//! caller as an action; the caller performs it and hands the host's reply to
//! `complete`, which writes the result into the guest.

pub mod darwin;
pub mod linux;

use vstd::prelude::*;
use crate::cpu::{CpuContext, CpuView};
use crate::loader::TargetOs;
use crate::memory::{MemView, MemoryManager};
use crate::syscall::darwin::darwin_plan_post;
use crate::syscall::linux::linux_plan_post;
use crate::interp::step::{fetch_spec, Fetched};
use crate::Error;

pub use crate::syscall::darwin::DarwinSyscall;
pub use crate::syscall::linux::{translate_open_flags, LinuxSyscall};

verus! {

/// A call the host has to make for the guest.
#[derive(Debug)]
pub enum HostCall {
    Socket { domain: i32, ty: i32, protocol: i32 },
    GetSockName { fd: i32 },
    GetPeerName { fd: i32 },
    Listen { fd: i32, backlog: i32 },
    /// `setsockopt` with the option value's bytes (its length is the option length).
    SetSockOpt { fd: i32, level: i32, name: i32, value: Vec<u8> },
    GetSockOpt { fd: i32, level: i32, name: i32 },
    /// `symlink` of the two paths, as the guest's bytes.
    Symlink { target: Vec<u8>, link: Vec<u8> },
    Kill { pid: i32, sig: i32 },
    Fcntl { fd: i32, cmd: i32, arg: u64 },
    Uname,
    /// The host process's identifier.
    ProcessId,
    ParentProcessId,
    UserId,
    EffectiveUserId,
    GroupId,
    EffectiveGroupId,
    Close { fd: i32 },
}

/// The host's answer to a `HostCall`.
#[derive(Debug)]
pub enum HostReply {
    /// The call's return value and, when that is negative, `errno`.
    Status { ret: i64, errno: i32 },
    /// A call that also filled a buffer: its status and the bytes it filled (as many as
    /// the length it reported).
    Filled { ret: i64, errno: i32, data: Vec<u8> },
    /// An identifier.
    Id(u64),
}

/// What the caller does for a system call after `plan`.
#[derive(Debug)]
pub enum SyscallAction {
    /// Handled; the call's result.
    Done(i64),
    /// Handled; the bytes go to the host's standard output, then the call returns `result`.
    Print { data: Vec<u8>, result: i64 },
    /// The host makes the call; `complete` then finishes it.
    Host(HostCall),
}

/// The dispatcher between the conventions of the guest systems.
pub struct SyscallDispatcher;

/// Law: after a Linux `exit` or `exit_group` (numbers 93 and 94) the guest has exited
/// with the low 32 bits of X0 as its status, and from then on fetching does nothing.
pub proof fn law_exit_then_idle(c0: CpuView, m0: MemView, c1: CpuView, m1: MemView, r: Result<SyscallAction, Error>)
    requires
        linux_plan_post(c0, m0, c1, m1, r),
        c0.xreg(8) == 93 || c0.xreg(8) == 94,
    ensures
        c1.exited,
        c1.exit_code == c0.xreg(0) as i32,
        m1 == m0,
        fetch_spec(c1, m1.segs) == (c1, m1.segs, Ok::<Fetched, Seq<char>>(Fetched::Exited)),
{
}

/// What deciding a system call under the conventions of `os` does: the Darwin decision
/// on the number in X16, or the Linux decision (number in X8) for Linux and Android.
pub open spec fn dispatch_post(os: TargetOs, c0: CpuView, m0: MemView, c1: CpuView, m1: MemView, r: Result<SyscallAction, Error>) -> bool {
    match os {
        TargetOs::Darwin => darwin_plan_post(c0.xreg(16), c0, m0, c1, m1, r),
        _ => linux_plan_post(c0, m0, c1, m1, r),
    }
}

/// Law: dispatching a system call does what the handler of the target system does:
/// Linux and Android are decided by the Linux rules on X8, Darwin by the Darwin rules on
/// X16, and the plain dispatch is the Linux one.
pub proof fn law_dispatch_by_os(os: TargetOs, c0: CpuView, m0: MemView, c1: CpuView, m1: MemView, r: Result<SyscallAction, Error>)
    ensures
        (os == TargetOs::Linux || os == TargetOs::Android) ==> (dispatch_post(os, c0, m0, c1, m1, r)
            <==> linux_plan_post(c0, m0, c1, m1, r)),
        os == TargetOs::Darwin ==> (dispatch_post(os, c0, m0, c1, m1, r)
            <==> darwin_plan_post(c0.xreg(16), c0, m0, c1, m1, r)),
        dispatch_post(TargetOs::Linux, c0, m0, c1, m1, r) <==> linux_plan_post(c0, m0, c1, m1, r),
{
}

impl SyscallDispatcher {
    /// Decides a Linux system call (number in X8).
    pub fn plan(ctx: &mut CpuContext, mem: &mut MemoryManager) -> (r: Result<SyscallAction, Error>)
        requires
            old(mem).wf(),
        ensures
            final(mem).wf(),
            linux_plan_post(old(ctx)@, old(mem)@, final(ctx)@, final(mem)@, r),
            dispatch_post(TargetOs::Linux, old(ctx)@, old(mem)@, final(ctx)@, final(mem)@, r),
    {
        LinuxSyscall::plan(ctx, mem)
    }

    /// Decides a system call under the conventions of `target_os`: Linux and Android
    /// take the number from X8, Darwin from X16.
    pub fn plan_for_os(target_os: TargetOs, ctx: &mut CpuContext, mem: &mut MemoryManager) -> (r: Result<SyscallAction, Error>)
        requires
            old(mem).wf(),
        ensures
            final(mem).wf(),
            target_os != TargetOs::Darwin ==> linux_plan_post(old(ctx)@, old(mem)@, final(ctx)@, final(mem)@, r),
            target_os == TargetOs::Darwin ==> darwin_plan_post(old(ctx)@.xreg(16), old(ctx)@, old(mem)@, final(ctx)@, final(mem)@, r),
            dispatch_post(target_os, old(ctx)@, old(mem)@, final(ctx)@, final(mem)@, r),
    {
        match target_os {
            TargetOs::Linux | TargetOs::Android => LinuxSyscall::plan(ctx, mem),
            TargetOs::Darwin => {
                let nr = ctx.get_x(16);
                DarwinSyscall::plan(nr, ctx, mem)
            },
        }
    }
}

} // verus!
