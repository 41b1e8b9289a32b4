//! AArch64 register state and execution context.

use vstd::prelude::*;

verus! {

/// Negative flag: bit 31 of the process state.
pub const FLAG_N: u32 = 0x8000_0000;
/// Zero flag: bit 30.
pub const FLAG_Z: u32 = 0x4000_0000;
/// Carry flag: bit 29.
pub const FLAG_C: u32 = 0x2000_0000;
/// Overflow flag: bit 28.
pub const FLAG_V: u32 = 0x1000_0000;

/// Register state of one AArch64 thread.
#[derive(Clone, Debug)]
pub struct CpuContext {
    /// General-purpose registers X0..X30 (X30 is the link register).
    pub x: [u64; 31],
    /// Stack pointer.
    pub sp: u64,
    /// Program counter.
    pub pc: u64,
    /// Process state; the NZCV flags are bits 31..28.
    pub pstate: u32,
    /// SIMD and floating-point registers V0..V31, 16 bytes each, little endian.
    pub v: [[u8; 16]; 32],
    /// Thread pointer register TPIDR_EL0.
    pub tpidr_el0: u64,
    /// Set once the guest has asked to exit.
    pub exited: bool,
    /// Exit status given by the guest.
    pub exit_code: i32,
}

/// The register state as a mathematical value.
pub ghost struct CpuView {
    pub x: Seq<u64>,
    pub sp: u64,
    pub pc: u64,
    pub pstate: u32,
    pub v: Seq<Seq<u8>>,
    pub tpidr_el0: u64,
    pub exited: bool,
    pub exit_code: i32,
}

impl CpuView {
    /// `get_x(r)`.
    pub open spec fn xreg(self, r: int) -> u64 {
        x_value(self.x, r)
    }

    /// `set_x(r, val)`.
    pub open spec fn with_x(self, r: int, val: u64) -> CpuView {
        if 0 <= r < 31 {
            CpuView { x: self.x.update(r, val), ..self }
        } else {
            self
        }
    }

    pub open spec fn flag_n(self) -> bool {
        self.pstate & FLAG_N != 0
    }

    pub open spec fn flag_z(self) -> bool {
        self.pstate & FLAG_Z != 0
    }

    pub open spec fn flag_c(self) -> bool {
        self.pstate & FLAG_C != 0
    }

    pub open spec fn flag_v(self) -> bool {
        self.pstate & FLAG_V != 0
    }

    /// `set_nzcv(n, z, c, v)`.
    pub open spec fn with_nzcv(self, n: bool, z: bool, c: bool, v: bool) -> CpuView {
        CpuView { pstate: nzcv_pstate(self.pstate, n, z, c, v), ..self }
    }

    /// The shape every real register state has.
    pub open spec fn wf(self) -> bool {
        &&& self.x.len() == 31
        &&& self.v.len() == 32
        &&& forall|i: int| 0 <= i < 32 ==> (#[trigger] self.v[i]).len() == 16
    }
}

/// The process state after `set_nzcv`: the four flags replaced, the low 28 bits kept.
pub open spec fn nzcv_pstate(p: u32, n: bool, z: bool, c: bool, v: bool) -> u32 {
    (p & 0x0fff_ffffu32) | ((if n { FLAG_N } else { 0u32 }) | (if z { FLAG_Z } else { 0u32 })
        | (if c { FLAG_C } else { 0u32 }) | (if v { FLAG_V } else { 0u32 }))
}

impl View for CpuContext {
    type V = CpuView;

    open spec fn view(&self) -> CpuView {
        CpuView {
            x: self.x@,
            sp: self.sp,
            pc: self.pc,
            pstate: self.pstate,
            v: self.v@.map_values(|a: [u8; 16]| a@),
            tpidr_el0: self.tpidr_el0,
            exited: self.exited,
            exit_code: self.exit_code,
        }
    }
}

/// The value of general register `r` as `get_x` reads it: registers past X30 read as zero.
pub open spec fn x_value(x: Seq<u64>, r: int) -> u64 {
    if 0 <= r < 31 {
        x[r]
    } else {
        0
    }
}

impl CpuContext {
    /// `get_x(r)` as a mathematical function of the state.
    pub open spec fn xreg(&self, r: int) -> u64 {
        x_value(self.x@, r)
    }

    pub open spec fn flag_n(&self) -> bool {
        self.pstate & FLAG_N != 0
    }

    pub open spec fn flag_z(&self) -> bool {
        self.pstate & FLAG_Z != 0
    }

    pub open spec fn flag_c(&self) -> bool {
        self.pstate & FLAG_C != 0
    }

    pub open spec fn flag_v(&self) -> bool {
        self.pstate & FLAG_V != 0
    }

    /// Two contexts agree on everything but the general registers.
    pub open spec fn same_but_x(&self, other: &CpuContext) -> bool {
        &&& self.sp == other.sp
        &&& self.pc == other.pc
        &&& self.pstate == other.pstate
        &&& self.v == other.v
        &&& self.tpidr_el0 == other.tpidr_el0
        &&& self.exited == other.exited
        &&& self.exit_code == other.exit_code
    }

    /// Two contexts agree on everything but the process state.
    pub open spec fn same_but_pstate(&self, other: &CpuContext) -> bool {
        &&& self.x == other.x
        &&& self.sp == other.sp
        &&& self.pc == other.pc
        &&& self.v == other.v
        &&& self.tpidr_el0 == other.tpidr_el0
        &&& self.exited == other.exited
        &&& self.exit_code == other.exit_code
    }

    /// A context with every register, flag and field zero.
    pub fn new() -> (r: Self)
        ensures
            forall|i: int| 0 <= i < 31 ==> r.x@[i] == 0,
            forall|i: int, j: int| 0 <= i < 32 && 0 <= j < 16 ==> r.v@[i]@[j] == 0,
            r.sp == 0,
            r.pc == 0,
            r.pstate == 0,
            r.tpidr_el0 == 0,
            !r.exited,
            r.exit_code == 0,
    {
        CpuContext {
            x: [0u64; 31],
            sp: 0,
            pc: 0,
            pstate: 0,
            v: [[0u8; 16]; 32],
            tpidr_el0: 0,
            exited: false,
            exit_code: 0,
        }
    }

    /// Writes general register `reg`; an index past X30 is ignored.
    pub fn set_x(&mut self, reg: usize, val: u64)
        ensures
            reg < 31 ==> final(self).x@ == old(self).x@.update(reg as int, val),
            reg >= 31 ==> final(self).x@ == old(self).x@,
            final(self).same_but_x(old(self)),
            final(self)@ == old(self)@.with_x(reg as int, val),
    {
        if reg < 31 {
            self.x[reg] = val;
        }
    }

    /// Reads general register `reg`; an index past X30 reads as zero.
    pub fn get_x(&self, reg: usize) -> (r: u64)
        ensures
            r == self.xreg(reg as int),
    {
        if reg < 31 {
            self.x[reg]
        } else {
            0
        }
    }

    pub fn get_n(&self) -> (r: bool)
        ensures
            r == self.flag_n(),
    {
        (self.pstate & FLAG_N) != 0
    }

    pub fn get_z(&self) -> (r: bool)
        ensures
            r == self.flag_z(),
    {
        (self.pstate & FLAG_Z) != 0
    }

    pub fn get_c(&self) -> (r: bool)
        ensures
            r == self.flag_c(),
    {
        (self.pstate & FLAG_C) != 0
    }

    pub fn get_v(&self) -> (r: bool)
        ensures
            r == self.flag_v(),
    {
        (self.pstate & FLAG_V) != 0
    }

    /// Replaces the four condition flags and keeps the low 28 bits of the process state.
    pub fn set_nzcv(&mut self, n: bool, z: bool, c: bool, v: bool)
        ensures
            final(self).flag_n() == n,
            final(self).flag_z() == z,
            final(self).flag_c() == c,
            final(self).flag_v() == v,
            final(self).pstate & 0x0fff_ffffu32 == old(self).pstate & 0x0fff_ffffu32,
            final(self).same_but_pstate(old(self)),
            final(self)@ == old(self)@.with_nzcv(n, z, c, v),
    {
        let fn_: u32 = if n { FLAG_N } else { 0 };
        let fz: u32 = if z { FLAG_Z } else { 0 };
        let fc: u32 = if c { FLAG_C } else { 0 };
        let fv: u32 = if v { FLAG_V } else { 0 };
        let flags: u32 = fn_ | fz | fc | fv;
        let old_p = self.pstate;
        let new_p = (old_p & 0x0fff_ffffu32) | flags;
        assert(flags & 0x0fff_ffffu32 == 0) by (bit_vector)
            requires
                flags == fn_ | fz | fc | fv,
                fn_ == 0x8000_0000u32 || fn_ == 0,
                fz == 0x4000_0000u32 || fz == 0,
                fc == 0x2000_0000u32 || fc == 0,
                fv == 0x1000_0000u32 || fv == 0,
        ;
        assert(new_p & 0x0fff_ffffu32 == old_p & 0x0fff_ffffu32) by (bit_vector)
            requires
                new_p == (old_p & 0x0fff_ffffu32) | flags,
                flags & 0x0fff_ffffu32 == 0,
        ;
        assert((new_p & 0x8000_0000u32 != 0) == (fn_ != 0) && (new_p & 0x4000_0000u32 != 0) == (fz != 0)
            && (new_p & 0x2000_0000u32 != 0) == (fc != 0) && (new_p & 0x1000_0000u32 != 0) == (fv != 0))
            by (bit_vector)
            requires
                new_p == (old_p & 0x0fff_ffffu32) | flags,
                flags == fn_ | fz | fc | fv,
                fn_ == 0x8000_0000u32 || fn_ == 0,
                fz == 0x4000_0000u32 || fz == 0,
                fc == 0x2000_0000u32 || fc == 0,
                fv == 0x1000_0000u32 || fv == 0,
        ;
        assert(new_p == nzcv_pstate(old_p, n, z, c, v));
        self.pstate = new_p;
    }
}

impl Default for CpuContext {
    /// The same context as `new`.
    fn default() -> (r: Self)
        ensures
            forall|i: int| 0 <= i < 31 ==> r.x@[i] == 0,
            forall|i: int, j: int| 0 <= i < 32 && 0 <= j < 16 ==> r.v@[i]@[j] == 0,
            r.sp == 0,
            r.pc == 0,
            r.pstate == 0,
            r.tpidr_el0 == 0,
            !r.exited,
            r.exit_code == 0,
    {
        CpuContext::new()
    }
}

/// Law: reading a general register after writing it gives back the value written, and
/// writing one register leaves every other register as it was.
pub proof fn law_register_write_read(c: CpuView, reg: int, val: u64, other: int)
    requires
        c.wf(),
        0 <= reg < 31,
        other != reg,
    ensures
        c.with_x(reg, val).xreg(reg) == val,
        c.with_x(reg, val).xreg(other) == c.xreg(other),
{
}

/// Law: register index 31 and beyond (the zero register) always reads as zero, and
/// writing it changes nothing.
pub proof fn law_zero_register(c: CpuView, reg: int, val: u64)
    requires
        reg >= 31,
    ensures
        c.xreg(reg) == 0,
        c.with_x(reg, val) == c,
{
}

/// Law: after the condition flags are set, each flag reads back as set, and the low 28
/// bits of the process state are kept.
pub proof fn law_flags_write_read(c: CpuView, n: bool, z: bool, cf: bool, v: bool)
    ensures
        c.with_nzcv(n, z, cf, v).flag_n() == n,
        c.with_nzcv(n, z, cf, v).flag_z() == z,
        c.with_nzcv(n, z, cf, v).flag_c() == cf,
        c.with_nzcv(n, z, cf, v).flag_v() == v,
        c.with_nzcv(n, z, cf, v).pstate & 0x0fff_ffffu32 == c.pstate & 0x0fff_ffffu32,
{
    let p = c.pstate;
    let fn_: u32 = if n { FLAG_N } else { 0 };
    let fz: u32 = if z { FLAG_Z } else { 0 };
    let fc: u32 = if cf { FLAG_C } else { 0 };
    let fv: u32 = if v { FLAG_V } else { 0 };
    let q = nzcv_pstate(p, n, z, cf, v);
    assert(q == (p & 0x0fff_ffffu32) | (fn_ | fz | fc | fv));
    assert((q & 0x8000_0000u32 != 0) == (fn_ != 0) && (q & 0x4000_0000u32 != 0) == (fz != 0)
        && (q & 0x2000_0000u32 != 0) == (fc != 0) && (q & 0x1000_0000u32 != 0) == (fv != 0)
        && q & 0x0fff_ffffu32 == p & 0x0fff_ffffu32) by (bit_vector)
        requires
            q == (p & 0x0fff_ffffu32) | (fn_ | fz | fc | fv),
            fn_ == 0x8000_0000u32 || fn_ == 0,
            fz == 0x4000_0000u32 || fz == 0,
            fc == 0x2000_0000u32 || fc == 0,
            fv == 0x1000_0000u32 || fv == 0,
    ;
}

} // verus!
