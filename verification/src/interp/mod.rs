//! Instruction semantics: operand evaluation and the effect of each operation on the
//! register state and guest memory.

pub mod alu;
pub mod bitops;
pub mod control;
pub mod lanes;
pub mod memops;
pub mod scan;
pub mod simd;
pub mod laws;
pub mod step;

use vstd::prelude::*;
use crate::cpu::{CpuContext, CpuView};
use crate::interp::scan::{is_64bit_text, vec_elem_size_text, is_64bit_vector_spec, vec_elem_size_spec};
use crate::decoder::{Condition, Imm, Instruction, Op, Operand, OperandKind, Reg, Shift, reg_wf};
use crate::memory::is_memory_error;
use crate::text::{concat, hex_text, hex_text_spec};
use crate::{Error, error_text};

verus! {

/// The instruction interpreter.
pub struct Interpreter;

// ---------------------------------------------------------------------------
// Registers
// ---------------------------------------------------------------------------

/// Index of the general register a register operand names (X0..X30, W0..W30).
pub open spec fn reg_idx_spec(reg: Reg) -> Option<usize> {
    match reg {
        Reg::X(n) | Reg::W(n) => if n < 31 { Some(n as usize) } else { None },
        _ => None,
    }
}

/// Index of the SIMD register a register operand names (B/H/S/D/Q/V 0..31).
pub open spec fn v_reg_idx_spec(reg: Reg) -> Option<usize> {
    match reg {
        Reg::B(n) | Reg::H(n) | Reg::S(n) | Reg::D(n) | Reg::Q(n) | Reg::V(n) => if n < 32 {
            Some(n as usize)
        } else {
            None
        },
        _ => None,
    }
}

/// The register is a 32-bit general register view (W0..W30 or WZR).
pub open spec fn is_w_reg_spec(reg: Reg) -> bool {
    match reg {
        Reg::W(n) => n < 31,
        Reg::Wzr => true,
        _ => false,
    }
}

/// Width in bytes by the register name's first letter: Q/V 16, D/X 8, S/W 4 (SP, WSP,
/// WZR included), H 2, B 1, anything else 8.
pub open spec fn reg_size_spec(reg: Reg) -> usize {
    match reg {
        Reg::Q(_) | Reg::V(_) => 16,
        Reg::D(_) | Reg::X(_) | Reg::Xzr => 8,
        Reg::S(_) | Reg::Sp | Reg::W(_) | Reg::Wzr | Reg::Wsp => 4,
        Reg::H(_) => 2,
        Reg::B(_) => 1,
        _ => 8,
    }
}

/// Index of the general register of an operand register (X0..X30 or W0..W30).
pub fn reg_idx(reg: Reg) -> (r: Option<usize>)
    ensures
        r == reg_idx_spec(reg),
{
    match reg {
        Reg::X(n) | Reg::W(n) => if n < 31 { Some(n as usize) } else { None },
        _ => None,
    }
}

/// Index of the SIMD register of an operand register.
pub fn v_reg_idx(reg: Reg) -> (r: Option<usize>)
    ensures
        r == v_reg_idx_spec(reg),
{
    match reg {
        Reg::B(n) | Reg::H(n) | Reg::S(n) | Reg::D(n) | Reg::Q(n) | Reg::V(n) => if n < 32 {
            Some(n as usize)
        } else {
            None
        },
        _ => None,
    }
}

/// Whether the register is a 32-bit general register view (W0..W30, WZR).
pub fn is_w_reg(reg: Reg) -> (r: bool)
    ensures
        r == is_w_reg_spec(reg),
{
    match reg {
        Reg::W(n) => n < 31,
        Reg::Wzr => true,
        _ => false,
    }
}

/// Whether the register is a 64-bit SIMD view D0..D31.
pub fn is_d_reg(reg: Reg) -> (r: bool)
    ensures
        r == (reg matches Reg::D(n) && n < 32),
{
    match reg {
        Reg::D(n) => n < 32,
        _ => false,
    }
}

/// Whether the register is a 32-bit SIMD view S0..S31.
pub fn is_s_reg(reg: Reg) -> (r: bool)
    ensures
        r == (reg matches Reg::S(n) && n < 32),
{
    match reg {
        Reg::S(n) => n < 32,
        _ => false,
    }
}

/// Width in bytes of a register, by the first letter of its name.
pub fn reg_size(reg: Reg) -> (r: usize)
    ensures
        r == reg_size_spec(reg),
{
    match reg {
        Reg::Q(_) | Reg::V(_) => 16,
        Reg::D(_) | Reg::X(_) | Reg::Xzr => 8,
        Reg::S(_) | Reg::Sp | Reg::W(_) | Reg::Wzr | Reg::Wsp => 4,
        Reg::H(_) => 2,
        Reg::B(_) => 1,
        _ => 8,
    }
}

// ---------------------------------------------------------------------------
// Little-endian byte groups
// ---------------------------------------------------------------------------

/// The unsigned value of the first `n` bytes of `s`, little endian.
pub open spec fn le_value(s: Seq<u8>, n: int) -> u64
    decreases n,
{
    if n <= 0 {
        0
    } else {
        le_value(s, n - 1) | ((s[n - 1] as u64) << ((8 * (n - 1)) as u64))
    }
}

/// The `n` low bytes of `v`, little endian.
pub open spec fn le_bytes(v: u64, n: int) -> Seq<u8> {
    Seq::new(n as nat, |k: int| ((v >> ((8 * k) as u64)) & 0xff) as u8)
}

/// Lane `i` of width `esz` bytes of a 16-byte register.
pub open spec fn lane(v: Seq<u8>, i: int, esz: int) -> u64 {
    le_value(v.subrange(i * esz, i * esz + esz), esz)
}

/// The value of the first `n` bytes (at most 8) of `v`, little endian.
pub fn le_value_of(v: &[u8; 16], start: usize, n: usize) -> (r: u64)
    requires
        n <= 8,
        start + n <= 16,
    ensures
        r == le_value(v@.subrange(start as int, start + n), n as int),
{
    let mut r: u64 = 0;
    let mut k: usize = 0;
    while k < n
        invariant
            n <= 8,
            start + n <= 16,
            0 <= k <= n,
            r == le_value(v@.subrange(start as int, start + n), k as int),
        decreases n - k,
    {
        assert(v@.subrange(start as int, start + n)[k as int] == v@[start + k]);
        r = r | ((v[start + k] as u64) << ((8 * k) as u64));
        k = k + 1;
    }
    r
}

/// Stores the `n` low bytes of `val` at `start`, little endian.
pub fn put_le(v: &mut [u8; 16], start: usize, n: usize, val: u64)
    requires
        n <= 8,
        start + n <= 16,
    ensures
        final(v)@ == old(v)@.subrange(0, start as int) + le_bytes(val, n as int) + old(v)@.subrange(start + n, 16),
{
    let mut k: usize = 0;
    while k < n
        invariant
            n <= 8,
            start + n <= 16,
            0 <= k <= n,
            v@.len() == 16,
            forall|i: int| 0 <= i < start || start + k <= i < 16 ==> v@[i] == old(v)@[i],
            forall|i: int| start <= i < start + k ==> v@[i] == le_bytes(val, n as int)[i - start],
        decreases n - k,
    {
        v[start + k] = ((val >> ((8 * k) as u64)) & 0xff) as u8;
        k = k + 1;
    }
    assert(v@ =~= old(v)@.subrange(0, start as int) + le_bytes(val, n as int) + old(v)@.subrange(start + n, 16));
}


/// Bytes of a SIMD register after writing `val` through a view of `size` bytes: the low
/// `min(size, 8)` bytes of `val`, the rest zero.
pub open spec fn v_write_bytes(val: u64, size: int) -> Seq<u8> {
    let n = if size < 8 { size } else { 8 };
    Seq::new(16, |k: int| if k < n { ((val >> ((8 * k) as u64)) & 0xff) as u8 } else { 0u8 })
}

/// What reading a register operand gives: a W register its low 32 bits (WZR zero), an X
/// register its value, a SIMD view its low `min(size, 8)` bytes, SP the stack pointer,
/// anything else zero.
pub open spec fn get_reg_val_spec(reg: Reg, c: CpuView) -> u64 {
    if is_w_reg_spec(reg) {
        match reg_idx_spec(reg) {
            Some(i) => c.xreg(i as int) & 0xffff_ffff,
            None => 0,
        }
    } else if reg_idx_spec(reg) is Some {
        c.xreg(reg_idx_spec(reg)->0 as int)
    } else if v_reg_idx_spec(reg) is Some {
        let sz = reg_size_spec(reg) as int;
        le_value(c.v[v_reg_idx_spec(reg)->0 as int], if sz < 8 { sz } else { 8 })
    } else if reg == Reg::Sp {
        c.sp
    } else {
        0
    }
}

/// What writing a register operand does: a W register takes the low 32 bits (WZR
/// nothing), an X register the value, a SIMD view is cleared and takes the low
/// `min(size, 8)` bytes, SP the value; anything else is left alone.
pub open spec fn set_reg_val_spec(reg: Reg, val: u64, c: CpuView) -> CpuView {
    if is_w_reg_spec(reg) {
        match reg_idx_spec(reg) {
            Some(i) => c.with_x(i as int, val & 0xffff_ffff),
            None => c,
        }
    } else if reg_idx_spec(reg) is Some {
        c.with_x(reg_idx_spec(reg)->0 as int, val)
    } else if v_reg_idx_spec(reg) is Some {
        CpuView { v: c.v.update(v_reg_idx_spec(reg)->0 as int, v_write_bytes(val, reg_size_spec(reg) as int)), ..c }
    } else if reg == Reg::Sp {
        CpuView { sp: val, ..c }
    } else {
        c
    }
}

/// Reads a register operand.
pub fn get_reg_val(reg: Reg, ctx: &CpuContext) -> (r: u64)
    ensures
        r == get_reg_val_spec(reg, ctx@),
{
    if is_w_reg(reg) {
        if let Some(idx) = reg_idx(reg) {
            ctx.get_x(idx) & 0xFFFF_FFFF
        } else {
            0
        }
    } else if let Some(idx) = reg_idx(reg) {
        ctx.get_x(idx)
    } else if let Some(idx) = v_reg_idx(reg) {
        let sz = reg_size(reg);
        let copy_sz = if sz < 8 { sz } else { 8 };
        let r = le_value_of(&ctx.v[idx], 0, copy_sz);
        assert(ctx.v@[idx as int]@.subrange(0, copy_sz as int) =~= ctx@.v[idx as int].subrange(0, copy_sz as int));
        proof { lemma_le_value_prefix(ctx@.v[idx as int], copy_sz as int); }
        r
    } else if reg == Reg::Sp {
        ctx.sp
    } else {
        0
    }
}

/// The first `n` bytes decide the value of the first `n` bytes.
pub proof fn lemma_le_value_prefix(s: Seq<u8>, n: int)
    requires
        0 <= n <= s.len(),
    ensures
        le_value(s.subrange(0, n), n) == le_value(s, n),
    decreases n,
{
    if n > 0 {
        lemma_le_value_prefix(s.subrange(0, n), n - 1);
        lemma_le_value_prefix(s, n - 1);
        assert(s.subrange(0, n).subrange(0, n - 1) =~= s.subrange(0, n - 1));
    }
}

/// Writes a register operand.
pub fn set_reg_val(reg: Reg, val: u64, ctx: &mut CpuContext)
    ensures
        final(ctx)@ == set_reg_val_spec(reg, val, old(ctx)@),
{
    if is_w_reg(reg) {
        if let Some(idx) = reg_idx(reg) {
            ctx.set_x(idx, val & 0xFFFF_FFFF);
        }
    } else if let Some(idx) = reg_idx(reg) {
        ctx.set_x(idx, val);
    } else if let Some(idx) = v_reg_idx(reg) {
        let sz = reg_size(reg);
        let copy_sz = if sz < 8 { sz } else { 8 };
        let mut bytes = [0u8; 16];
        put_le(&mut bytes, 0, copy_sz, val);
        assert(bytes@ =~= v_write_bytes(val, sz as int));
        ctx.v[idx] = bytes;
        assert(ctx@.v =~= old(ctx)@.v.update(idx as int, v_write_bytes(val, sz as int)));
    } else if reg == Reg::Sp {
        ctx.sp = val;
    }
}


// ---------------------------------------------------------------------------
// Immediates, shifts and operand values
// ---------------------------------------------------------------------------

/// An immediate as an unsigned 64-bit pattern.
pub open spec fn imm_u64_spec(imm: Imm) -> u64 {
    match imm {
        Imm::Signed(v) => v as u64,
        Imm::Unsigned(v) => v,
    }
}

/// An immediate as a signed 64-bit value.
pub open spec fn imm_i64_spec(imm: Imm) -> i64 {
    match imm {
        Imm::Signed(v) => v,
        Imm::Unsigned(v) => v as i64,
    }
}

pub fn imm_to_u64(imm: &Imm) -> (r: u64)
    ensures
        r == imm_u64_spec(*imm),
{
    match imm {
        Imm::Signed(val) => *val as u64,
        Imm::Unsigned(val) => *val,
    }
}

pub fn imm_to_i64(imm: &Imm) -> (r: i64)
    ensures
        r == imm_i64_spec(*imm),
{
    match imm {
        Imm::Signed(val) => *val,
        Imm::Unsigned(val) => *val as i64,
    }
}

/// `x.rotate_right(a)` for 64 bits.
pub open spec fn rotr64(x: u64, a: u32) -> u64 {
    let s = a % 64;
    if s == 0 {
        x
    } else {
        (x >> s) | (x << ((64 - s) as u32))
    }
}

/// `x.rotate_right(a)` for 32 bits.
pub open spec fn rotr32(x: u32, a: u32) -> u32 {
    let s = a % 32;
    if s == 0 {
        x
    } else {
        (x >> s) | (x << ((32 - s) as u32))
    }
}

pub fn rotate_right64(x: u64, a: u32) -> (r: u64)
    ensures
        r == rotr64(x, a),
{
    let s = a % 64;
    if s == 0 {
        x
    } else {
        (x >> s) | (x << (64 - s))
    }
}

pub fn rotate_right32(x: u32, a: u32) -> (r: u32)
    ensures
        r == rotr32(x, a),
{
    let s = a % 32;
    if s == 0 {
        x
    } else {
        (x >> s) | (x << (32 - s))
    }
}

/// The value of a register operand after its shift or extension. The amount of a shift
/// or rotation is taken modulo the register width; that of an extension modulo 64.
pub open spec fn shift_reg_spec(raw: u64, is_32: bool, shift: Shift) -> u64 {
    match shift {
        Shift::LSL(amt) => if is_32 { ((raw as u32) << (amt % 32)) as u64 } else { raw << (amt % 64) },
        Shift::LSR(amt) => if is_32 { ((raw as u32) >> (amt % 32)) as u64 } else { raw >> (amt % 64) },
        Shift::ASR(amt) => if is_32 {
            (((raw as u32 as i32) >> (amt % 32)) as u32) as u64
        } else {
            ((raw as i64) >> (amt % 64)) as u64
        },
        Shift::ROR(amt) => if is_32 { rotr32(raw as u32, amt) as u64 } else { rotr64(raw, amt) },
        Shift::UXTB(amt) => ((raw as u8) as u64) << (amt % 64),
        Shift::UXTH(amt) => ((raw as u16) as u64) << (amt % 64),
        Shift::UXTW(amt) => ((raw as u32) as u64) << (amt % 64),
        Shift::UXTX(amt) => raw << (amt % 64),
        Shift::SXTB(amt) => (((raw as i8) as i64) as u64) << (amt % 64),
        Shift::SXTH(amt) => (((raw as i16) as i64) as u64) << (amt % 64),
        Shift::SXTW(amt) => (((raw as i32) as i64) as u64) << (amt % 64),
        Shift::SXTX(amt) => raw << (amt % 64),
        Shift::MSL(amt) => (raw << (amt % 64)) | (((1u64 << (amt % 64)) - 1) as u64),
    }
}

/// Evaluates a shifted or extended register operand.
pub fn eval_shift_reg(reg: Reg, shift: &Shift, ctx: &CpuContext) -> (r: u64)
    ensures
        r == shift_reg_spec(get_reg_val_spec(reg, ctx@), is_w_reg_spec(reg), *shift),
{
    let raw = get_reg_val(reg, ctx);
    let is_32 = is_w_reg(reg);
    match shift {
        Shift::LSL(amt) => if is_32 { ((raw as u32) << (*amt % 32)) as u64 } else { raw << (*amt % 64) },
        Shift::LSR(amt) => if is_32 { ((raw as u32) >> (*amt % 32)) as u64 } else { raw >> (*amt % 64) },
        Shift::ASR(amt) => if is_32 {
            (((raw as u32 as i32) >> (*amt % 32)) as u32) as u64
        } else {
            ((raw as i64) >> (*amt % 64)) as u64
        },
        Shift::ROR(amt) => if is_32 { rotate_right32(raw as u32, *amt) as u64 } else { rotate_right64(raw, *amt) },
        Shift::UXTB(amt) => ((raw as u8) as u64) << (*amt % 64),
        Shift::UXTH(amt) => ((raw as u16) as u64) << (*amt % 64),
        Shift::UXTW(amt) => ((raw as u32) as u64) << (*amt % 64),
        Shift::UXTX(amt) => raw << (*amt % 64),
        Shift::SXTB(amt) => (((raw as i8) as i64) as u64) << (*amt % 64),
        Shift::SXTH(amt) => (((raw as i16) as i64) as u64) << (*amt % 64),
        Shift::SXTW(amt) => (((raw as i32) as i64) as u64) << (*amt % 64),
        Shift::SXTX(amt) => raw << (*amt % 64),
        Shift::MSL(amt) => {
            let s = *amt % 64;
            assert(1u64 << s >= 1) by (bit_vector)
                requires
                    s < 64,
            ;
            (raw << s) | ((1u64 << s) - 1)
        },
    }
}

/// An immediate after its optional shift: LSL/LSR/ASR/ROR by the amount modulo 64;
/// any other shift leaves it.
pub open spec fn imm_shift_spec(raw: u64, shift: Option<Shift>) -> u64 {
    match shift {
        Some(Shift::LSL(amt)) => raw << (amt % 64),
        Some(Shift::LSR(amt)) => raw >> (amt % 64),
        Some(Shift::ASR(amt)) => ((raw as i64) >> (amt % 64)) as u64,
        Some(Shift::ROR(amt)) => rotr64(raw, amt),
        _ => raw,
    }
}

pub fn eval_imm_shift(raw_val: u64, shift: Option<&Shift>) -> (r: u64)
    ensures
        r == imm_shift_spec(raw_val, match shift { Some(s) => Some(*s), None => None }),
{
    if let Some(s) = shift {
        match s {
            Shift::LSL(amt) => raw_val << (*amt % 64),
            Shift::LSR(amt) => raw_val >> (*amt % 64),
            Shift::ASR(amt) => ((raw_val as i64) >> (*amt % 64)) as u64,
            Shift::ROR(amt) => rotate_right64(raw_val, *amt),
            _ => raw_val,
        }
    } else {
        raw_val
    }
}

/// The amount of an LSL/LSR/ASR/ROR shift; zero otherwise.
pub open spec fn shift_val_spec(shift: Option<Shift>) -> u32 {
    match shift {
        Some(Shift::LSL(amt)) | Some(Shift::LSR(amt)) | Some(Shift::ASR(amt)) | Some(Shift::ROR(amt)) => amt,
        _ => 0,
    }
}

pub fn shift_val(shift: Option<&Shift>) -> (r: u32)
    ensures
        r == shift_val_spec(match shift { Some(s) => Some(*s), None => None }),
{
    match shift {
        Some(Shift::LSL(amt)) | Some(Shift::LSR(amt)) | Some(Shift::ASR(amt)) | Some(Shift::ROR(amt)) => *amt,
        _ => 0,
    }
}

/// The register an operand names: that of a register, qualified, shifted or the first of
/// a register list.
pub open spec fn get_op_reg_spec(op: OperandKind) -> Option<Reg> {
    match op {
        OperandKind::Reg { reg } => Some(reg),
        OperandKind::QualReg { reg } => Some(reg),
        OperandKind::ShiftReg { reg, .. } => Some(reg),
        OperandKind::MultiReg { regs } => if regs.len() > 0 { Some(regs[0]) } else { None },
        _ => None,
    }
}

pub fn get_op_reg(op: &Operand) -> (r: Option<Reg>)
    ensures
        r == get_op_reg_spec(op.kind),
{
    match &op.kind {
        OperandKind::Reg { reg } => Some(*reg),
        OperandKind::QualReg { reg } => Some(*reg),
        OperandKind::ShiftReg { reg, .. } => Some(*reg),
        OperandKind::MultiReg { regs } => if regs.len() > 0 { Some(regs[0]) } else { None },
        _ => None,
    }
}

/// The registers of a register list, or the single register an operand names.
pub open spec fn get_multi_regs_spec(op: OperandKind) -> Seq<Reg> {
    match op {
        OperandKind::MultiReg { regs } => regs@,
        _ => match get_op_reg_spec(op) {
            Some(r) => seq![r],
            None => Seq::empty(),
        },
    }
}

pub fn get_multi_regs(op: &Operand) -> (r: Vec<Reg>)
    ensures
        r@ == get_multi_regs_spec(op.kind),
{
    match &op.kind {
        OperandKind::MultiReg { regs } => regs.clone(),
        _ => {
            let mut v: Vec<Reg> = Vec::new();
            if let Some(r) = get_op_reg(op) {
                v.push(r);
            }
            assert(v@ =~= get_multi_regs_spec(op.kind));
            v
        },
    }
}

/// The value an operand reads as: a register's value, a shifted register's shifted value,
/// an immediate after its shift, a label's address; anything else zero.
pub open spec fn operand_val_spec(op: OperandKind, c: CpuView) -> u64 {
    match op {
        OperandKind::Reg { reg } => get_reg_val_spec(reg, c),
        OperandKind::QualReg { reg } => get_reg_val_spec(reg, c),
        OperandKind::ShiftReg { reg, shift } => shift_reg_spec(get_reg_val_spec(reg, c), is_w_reg_spec(reg), shift),
        OperandKind::Imm64 { imm, shift } => imm_shift_spec(imm_u64_spec(imm), shift),
        OperandKind::Imm32 { imm, shift } => imm_shift_spec(imm_u64_spec(imm), shift),
        OperandKind::Label(imm) => imm_u64_spec(imm),
        _ => 0,
    }
}

pub fn get_operand_val(op: &Operand, ctx: &CpuContext) -> (r: u64)
    ensures
        r == operand_val_spec(op.kind, ctx@),
{
    match &op.kind {
        OperandKind::Reg { reg } => get_reg_val(*reg, ctx),
        OperandKind::QualReg { reg } => get_reg_val(*reg, ctx),
        OperandKind::ShiftReg { reg, shift } => eval_shift_reg(*reg, shift, ctx),
        OperandKind::Imm64 { imm, shift } => eval_imm_shift(imm_to_u64(imm), shift.as_ref()),
        OperandKind::Imm32 { imm, shift } => eval_imm_shift(imm_to_u64(imm), shift.as_ref()),
        OperandKind::Label(imm) => imm_to_u64(imm),
        _ => 0,
    }
}

/// Whether a condition holds under the flags; AL and NV always hold.
pub open spec fn cond_holds(cond: Condition, c: CpuView) -> bool {
    match cond {
        Condition::EQ => c.flag_z(),
        Condition::NE => !c.flag_z(),
        Condition::CS => c.flag_c(),
        Condition::CC => !c.flag_c(),
        Condition::MI => c.flag_n(),
        Condition::PL => !c.flag_n(),
        Condition::VS => c.flag_v(),
        Condition::VC => !c.flag_v(),
        Condition::HI => c.flag_c() && !c.flag_z(),
        Condition::LS => !c.flag_c() || c.flag_z(),
        Condition::GE => c.flag_n() == c.flag_v(),
        Condition::LT => c.flag_n() != c.flag_v(),
        Condition::GT => !c.flag_z() && (c.flag_n() == c.flag_v()),
        Condition::LE => c.flag_z() || (c.flag_n() != c.flag_v()),
        _ => true,
    }
}

/// Law: the conditions come in complementary pairs (EQ/NE, CS/CC, MI/PL, VS/VC, HI/LS,
/// GE/LT, GT/LE): under any flags exactly one of each pair holds.
pub proof fn law_condition_complements(c: CpuView)
    ensures
        cond_holds(Condition::EQ, c) == !cond_holds(Condition::NE, c),
        cond_holds(Condition::CS, c) == !cond_holds(Condition::CC, c),
        cond_holds(Condition::MI, c) == !cond_holds(Condition::PL, c),
        cond_holds(Condition::VS, c) == !cond_holds(Condition::VC, c),
        cond_holds(Condition::HI, c) == !cond_holds(Condition::LS, c),
        cond_holds(Condition::GE, c) == !cond_holds(Condition::LT, c),
        cond_holds(Condition::GT, c) == !cond_holds(Condition::LE, c),
{
}

pub fn eval_cond(cond: &Condition, ctx: &CpuContext) -> (r: bool)
    ensures
        r == cond_holds(*cond, ctx@),
{
    match cond {
        Condition::EQ => ctx.get_z(),
        Condition::NE => !ctx.get_z(),
        Condition::CS => ctx.get_c(),
        Condition::CC => !ctx.get_c(),
        Condition::MI => ctx.get_n(),
        Condition::PL => !ctx.get_n(),
        Condition::VS => ctx.get_v(),
        Condition::VC => !ctx.get_v(),
        Condition::HI => ctx.get_c() && !ctx.get_z(),
        Condition::LS => !ctx.get_c() || ctx.get_z(),
        Condition::GE => ctx.get_n() == ctx.get_v(),
        Condition::LT => ctx.get_n() != ctx.get_v(),
        Condition::GT => !ctx.get_z() && (ctx.get_n() == ctx.get_v()),
        Condition::LE => ctx.get_z() || (ctx.get_n() != ctx.get_v()),
        _ => true,
    }
}

/// `x.wrapping_add(y)`.
pub open spec fn wadd(x: u64, y: u64) -> u64 {
    vstd::wrapping::u64_specs::wrapping_add(x, y)
}

/// `x.wrapping_sub(y)`.
pub open spec fn wsub(x: u64, y: u64) -> u64 {
    vstd::wrapping::u64_specs::wrapping_sub(x, y)
}

/// `x.wrapping_mul(y)`.
pub open spec fn wmul(x: u64, y: u64) -> u64 {
    vstd::wrapping::u64_specs::wrapping_mul(x, y)
}

/// `x.wrapping_add_signed(y)`: `x + y` modulo 2^64.
pub open spec fn wadd_signed(x: u64, y: i64) -> u64 {
    vstd::wrapping::u64_specs::wrapping_add_signed(x, y)
}

/// The address a memory operand designates and the register state after any base
/// write-back (offsets are added modulo 2^64).
pub open spec fn mem_addr_spec(op: OperandKind, c: CpuView) -> (Option<u64>, CpuView) {
    match op {
        OperandKind::Reg { reg } | OperandKind::QualReg { reg } | OperandKind::MemReg(reg) => (Some(get_reg_val_spec(reg, c)), c),
        OperandKind::MemOffset { reg, offset } => {
            let base = get_reg_val_spec(reg, c);
            (Some(wadd_signed(base, imm_i64_spec(offset))), c)
        },
        OperandKind::MemPreIdx { reg, imm } => {
            let base = get_reg_val_spec(reg, c);
            let a = wadd_signed(base, imm_i64_spec(imm));
            (Some(a), set_reg_val_spec(reg, a, c))
        },
        OperandKind::MemPostIdxImm { reg, imm } => {
            let base = get_reg_val_spec(reg, c);
            let a = wadd_signed(base, imm_i64_spec(imm));
            (Some(base), set_reg_val_spec(reg, a, c))
        },
        OperandKind::MemExt { base, index, shift } => {
            let b = get_reg_val_spec(base, c);
            let off = match shift {
                Some(s) => shift_reg_spec(get_reg_val_spec(index, c), is_w_reg_spec(index), s),
                None => if is_w_reg_spec(index) {
                    (get_reg_val_spec(index, c) as u32) as u64
                } else {
                    get_reg_val_spec(index, c)
                },
            };
            (Some(wadd(b, off)), c)
        },
        OperandKind::MemPostIdxReg(r0, r1) => {
            let b = get_reg_val_spec(r0, c);
            let off = get_reg_val_spec(r1, c);
            (Some(b), set_reg_val_spec(r0, wadd(b, off), c))
        },
        OperandKind::Label(imm) => (Some(imm_u64_spec(imm)), c),
        _ => (None, c),
    }
}

/// Evaluates a memory operand, performing any base write-back.
pub fn eval_mem_addr(op: &Operand, ctx: &mut CpuContext) -> (r: Option<u64>)
    ensures
        r == mem_addr_spec(op.kind, old(ctx)@).0,
        final(ctx)@ == mem_addr_spec(op.kind, old(ctx)@).1,
{
    match &op.kind {
        OperandKind::Reg { reg } | OperandKind::QualReg { reg } | OperandKind::MemReg(reg) => {
            Some(get_reg_val(*reg, ctx))
        },
        OperandKind::MemOffset { reg, offset } => {
            let base = get_reg_val(*reg, ctx);
            let off = imm_to_i64(offset);
            Some(base.wrapping_add_signed(off))
        },
        OperandKind::MemPreIdx { reg, imm } => {
            let base = get_reg_val(*reg, ctx);
            let off = imm_to_i64(imm);
            let new_addr = base.wrapping_add_signed(off);
            set_reg_val(*reg, new_addr, ctx);
            Some(new_addr)
        },
        OperandKind::MemPostIdxImm { reg, imm } => {
            let base = get_reg_val(*reg, ctx);
            let off = imm_to_i64(imm);
            let new_base = base.wrapping_add_signed(off);
            set_reg_val(*reg, new_base, ctx);
            Some(base)
        },
        OperandKind::MemExt { base, index, shift } => {
            let b = get_reg_val(*base, ctx);
            let off = if let Some(s) = shift {
                eval_shift_reg(*index, s, ctx)
            } else if is_w_reg(*index) {
                (get_reg_val(*index, ctx) as u32) as u64
            } else {
                get_reg_val(*index, ctx)
            };
            Some(b.wrapping_add(off))
        },
        OperandKind::MemPostIdxReg(r0, r1) => {
            let b = get_reg_val(*r0, ctx);
            let off = get_reg_val(*r1, ctx);
            set_reg_val(*r0, b.wrapping_add(off), ctx);
            Some(b)
        },
        OperandKind::Label(imm) => Some(imm_to_u64(imm)),
        _ => None,
    }
}


/// Whether the operand's text names a 64-bit vector arrangement.
pub fn is_64bit_vector(op: &Operand) -> (r: bool)
    ensures
        r == is_64bit_vector_spec(op.text@),
{
    is_64bit_text(op.text.as_slice())
}

/// The vector element size in bytes the operand's text names (1 when it names none).
pub fn get_vec_elem_size(op: &Operand) -> (r: usize)
    ensures
        r == vec_elem_size_spec(op.text@),
        r == 1 || r == 2 || r == 4 || r == 8,
{
    vec_elem_size_text(op.text.as_slice())
}


// ---------------------------------------------------------------------------
// Condition flags of additions and subtractions
// ---------------------------------------------------------------------------

/// NZCV of `v1 + v2` on 64 bits.
pub open spec fn add_flags64(v1: u64, v2: u64) -> (bool, bool, bool, bool) {
    let res = wadd(v1, v2);
    ((res as i64) < 0, res == 0, v1 + v2 > u64::MAX, ((v1 ^ !v2) & (v1 ^ res) & 0x8000_0000_0000_0000u64) != 0)
}

/// NZCV of `v1 + v2` on the low 32 bits.
pub open spec fn add_flags32(v1: u64, v2: u64) -> (bool, bool, bool, bool) {
    let a = v1 as u32;
    let b = v2 as u32;
    let res = vstd::wrapping::u32_specs::wrapping_add(a, b);
    ((res as i32) < 0, res == 0, a + b > u32::MAX, ((a ^ !b) & (a ^ res) & 0x8000_0000u32) != 0)
}

/// NZCV of `v1 - v2` on 64 bits (C set when there is no borrow).
pub open spec fn sub_flags64(v1: u64, v2: u64) -> (bool, bool, bool, bool) {
    let res = wsub(v1, v2);
    ((res as i64) < 0, res == 0, !(v1 < v2), ((v1 ^ v2) & (v1 ^ res) & 0x8000_0000_0000_0000u64) != 0)
}

/// NZCV of `v1 - v2` on the low 32 bits.
pub open spec fn sub_flags32(v1: u64, v2: u64) -> (bool, bool, bool, bool) {
    let a = v1 as u32;
    let b = v2 as u32;
    let res = vstd::wrapping::u32_specs::wrapping_sub(a, b);
    ((res as i32) < 0, res == 0, !(a < b), ((a ^ b) & (a ^ res) & 0x8000_0000u32) != 0)
}

/// The state after setting the flags to `f`.
pub open spec fn with_flags(c: CpuView, f: (bool, bool, bool, bool)) -> CpuView {
    c.with_nzcv(f.0, f.1, f.2, f.3)
}

pub fn add_flags(v1: u64, v2: u64, is_32: bool) -> (r: (bool, bool, bool, bool))
    ensures
        r == (if is_32 { add_flags32(v1, v2) } else { add_flags64(v1, v2) }),
{
    if is_32 {
        let a = v1 as u32;
        let b = v2 as u32;
        let res = a.wrapping_add(b);
        let c = res < a;
        assert(c == (a + b > u32::MAX));
        ((res as i32) < 0, res == 0, c, ((a ^ !b) & (a ^ res) & 0x8000_0000u32) != 0)
    } else {
        let res = v1.wrapping_add(v2);
        let c = res < v1;
        assert(c == (v1 + v2 > u64::MAX));
        ((res as i64) < 0, res == 0, c, ((v1 ^ !v2) & (v1 ^ res) & 0x8000_0000_0000_0000u64) != 0)
    }
}

pub fn sub_flags(v1: u64, v2: u64, is_32: bool) -> (r: (bool, bool, bool, bool))
    ensures
        r == (if is_32 { sub_flags32(v1, v2) } else { sub_flags64(v1, v2) }),
{
    if is_32 {
        let a = v1 as u32;
        let b = v2 as u32;
        let res = a.wrapping_sub(b);
        ((res as i32) < 0, res == 0, !(a < b), ((a ^ b) & (a ^ res) & 0x8000_0000u32) != 0)
    } else {
        let res = v1.wrapping_sub(v2);
        ((res as i64) < 0, res == 0, !(v1 < v2), ((v1 ^ v2) & (v1 ^ res) & 0x8000_0000_0000_0000u64) != 0)
    }
}

/// Whether the register an operand names is a W register (false when it names none).
pub open spec fn op_is_w(op: OperandKind) -> bool {
    match get_op_reg_spec(op) {
        Some(r) => is_w_reg_spec(r),
        None => false,
    }
}

pub fn operand_is_w(op: &Operand) -> (r: bool)
    ensures
        r == op_is_w(op.kind),
{
    match get_op_reg(op) {
        Some(r) => is_w_reg(r),
        None => false,
    }
}


// ---------------------------------------------------------------------------
// Faults
// ---------------------------------------------------------------------------

/// The reason an interpreter error gives for a memory fault `e` at `pc`.
pub open spec fn m_err_reason(pc: u64, e: Error) -> Seq<char> {
    "Memory error at PC "@ + hex_text_spec(pc as nat) + ": "@ + error_text(e)
}

/// Wraps a memory error met while executing the instruction at `pc`.
pub fn m_err(pc: u64, e: Error) -> (r: Error)
    ensures
        r matches Error::InterpreterError { pc: p, reason } && p == pc && reason@ == m_err_reason(pc, e),
{
    let mut reason = concat("Memory error at PC ", hex_text(pc).as_str());
    reason.push_str(": ");
    reason.push_str(e.message().as_str());
    Error::InterpreterError { pc, reason }
}

/// `e` is the interpreter error for a memory fault with message `msg` at `pc`.
pub open spec fn is_mem_fault(e: Error, pc: u64, msg: Seq<char>) -> bool {
    e matches Error::InterpreterError { pc: p, reason } && p == pc
        && reason@ == "Memory error at PC "@ + hex_text_spec(pc as nat) + ": "@ + ("Memory error: "@ + msg)
}

/// A memory error with message `msg`, wrapped at `pc`, is that memory fault.
pub proof fn lemma_mem_fault(pc: u64, e: Error, w: Error, msg: Seq<char>)
    requires
        is_memory_error(e, msg),
        w matches Error::InterpreterError { pc: p, reason } && p == pc && reason@ == m_err_reason(pc, e),
    ensures
        is_mem_fault(w, pc, msg),
{
}

} // verus!
