//! Scalar data-processing instructions: arithmetic, logic, moves, multiplication and
//! division.

use vstd::prelude::*;
use crate::cpu::{CpuContext, CpuView};
use crate::decoder::{Instruction, Op, Operand, OperandKind, Reg};
use crate::interp::{
    add_flags, add_flags32, add_flags64, get_op_reg, get_op_reg_spec, get_operand_val, get_reg_val,
    get_reg_val_spec, get_vec_elem_size, imm_shift_spec, imm_to_u64, imm_u64_spec, is_w_reg, is_w_reg_spec,
    op_is_w, operand_is_w, operand_val_spec, reg_idx_spec, set_reg_val, set_reg_val_spec, shift_val,
    shift_val_spec, sub_flags, sub_flags32, sub_flags64, v_reg_idx, v_reg_idx_spec, wadd, with_flags, wmul, wsub,
};
use crate::interp::lanes::{LaneKind, lanewise, lanewise_spec};
use crate::interp::scan::vec_elem_size_spec;

verus! {

/// The SIMD register an operand names, or sixteen zero bytes when it names none.
pub open spec fn vec_operand_spec(ops: Seq<Operand>, i: int, c: CpuView) -> Seq<u8> {
    if 0 <= i < ops.len() && get_op_reg_spec(ops[i].kind) is Some && v_reg_idx_spec(get_op_reg_spec(ops[i].kind)->0) is Some {
        c.v[v_reg_idx_spec(get_op_reg_spec(ops[i].kind)->0)->0 as int]
    } else {
        Seq::new(16, |k: int| 0u8)
    }
}

/// The SIMD register operand `i` names, or zeros.
pub fn vec_operand(ops: &Vec<Operand>, i: usize, ctx: &CpuContext) -> (r: [u8; 16])
    ensures
        r@ == vec_operand_spec(ops@, i as int, ctx@),
{
    if i < ops.len() {
        if let Some(reg) = get_op_reg(&ops[i]) {
            if let Some(idx) = v_reg_idx(reg) {
                return ctx.v[idx];
            }
        }
    }
    let z = [0u8; 16];
    assert(z@ =~= Seq::new(16, |k: int| 0u8));
    z
}

/// The state with SIMD register `idx` replaced.
pub open spec fn with_v(c: CpuView, idx: int, bytes: Seq<u8>) -> CpuView {
    CpuView { v: c.v.update(idx, bytes), ..c }
}

// ADD, ADDS, CMN ------------------------------------------------------------

/// ADD/ADDS/CMN. With a SIMD destination: lane-wise wrapping addition of the last two
/// register operands. Otherwise the sum of the two source operands (the last two of
/// three, or both of two) is written, and ADDS sets the flags of the addition, 32-bit
/// when the first source is a W register. CMN (no destination) only sets the flags of
/// its two operands.
pub open spec fn add_spec(c: CpuView, inst: Instruction) -> CpuView {
    let ops = inst.operands@;
    if ops.len() < 2 {
        c
    } else {
        let target = if inst.op == Op::CMN { None } else { get_op_reg_spec(ops[0].kind) };
        match target {
            Some(reg) => if v_reg_idx_spec(reg) is Some {
                let cnt = ops.len() as int;
                let v1 = vec_operand_spec(ops, if cnt >= 3 { cnt - 2 } else { 0 }, c);
                let v2 = vec_operand_spec(ops, cnt - 1, c);
                let esz = vec_elem_size_spec(ops[0].text@) as int;
                with_v(c, v_reg_idx_spec(reg)->0 as int, lanewise_spec(LaneKind::Add, v1, Some(v2), 0, esz))
            } else {
                let o1 = if ops.len() >= 3 { ops[1] } else { ops[0] };
                let o2 = if ops.len() >= 3 { ops[2] } else { ops[1] };
                let v1 = operand_val_spec(o1.kind, c);
                let v2 = operand_val_spec(o2.kind, c);
                let c2 = set_reg_val_spec(reg, wadd(v1, v2), c);
                if inst.op == Op::ADDS {
                    with_flags(c2, if op_is_w(o1.kind) { add_flags32(v1, v2) } else { add_flags64(v1, v2) })
                } else {
                    c2
                }
            },
            None => if inst.op == Op::CMN {
                let v1 = operand_val_spec(ops[0].kind, c);
                let v2 = operand_val_spec(ops[1].kind, c);
                with_flags(c, if op_is_w(ops[0].kind) { add_flags32(v1, v2) } else { add_flags64(v1, v2) })
            } else {
                c
            },
        }
    }
}

pub fn exec_add(ctx: &mut CpuContext, inst: &Instruction)
    ensures
        final(ctx)@ == add_spec(old(ctx)@, *inst),
{
    let ops = &inst.operands;
    if ops.len() < 2 {
        return;
    }
    let target_reg = if inst.op == Op::CMN { None } else { get_op_reg(&ops[0]) };
    if let Some(reg) = target_reg {
        if let Some(idx0) = v_reg_idx(reg) {
            let cnt = ops.len();
            let vec1 = vec_operand(ops, if cnt >= 3 { cnt - 2 } else { 0 }, ctx);
            let vec2 = vec_operand(ops, cnt - 1, ctx);
            let elem_sz = get_vec_elem_size(&ops[0]);
            let res = lanewise(LaneKind::Add, &vec1, Some(&vec2), 0, elem_sz);
            ctx.v[idx0] = res;
            assert(ctx@.v =~= old(ctx)@.v.update(idx0 as int, res@));
        } else {
            let (op1, op2) = if ops.len() >= 3 { (&ops[1], &ops[2]) } else { (&ops[0], &ops[1]) };
            let v1 = get_operand_val(op1, ctx);
            let v2 = get_operand_val(op2, ctx);
            set_reg_val(reg, v1.wrapping_add(v2), ctx);
            if inst.op == Op::ADDS {
                let is_32 = operand_is_w(op1);
                let (n, z, c, v) = add_flags(v1, v2, is_32);
                ctx.set_nzcv(n, z, c, v);
            }
        }
    } else if inst.op == Op::CMN {
        let v1 = get_operand_val(&ops[0], ctx);
        let v2 = get_operand_val(&ops[1], ctx);
        let is_32 = operand_is_w(&ops[0]);
        let (n, z, c, v) = add_flags(v1, v2, is_32);
        ctx.set_nzcv(n, z, c, v);
    }
}


// SUB, SUBS, CMP, NEG, NEGS -------------------------------------------------

/// SUB/SUBS/CMP: the difference of the two source operands (the last two of three, or
/// both of two) is written to the destination (none for CMP); SUBS and CMP set the flags
/// of the subtraction, 32-bit when the first source is a W register.
pub open spec fn sub_spec(c: CpuView, inst: Instruction) -> CpuView {
    let ops = inst.operands@;
    if ops.len() < 2 {
        c
    } else {
        let is_cmp = inst.op == Op::CMP;
        let target = if is_cmp { None } else { get_op_reg_spec(ops[0].kind) };
        let o1 = if is_cmp { ops[0] } else if ops.len() >= 3 { ops[1] } else { ops[0] };
        let o2 = if is_cmp { ops[1] } else if ops.len() >= 3 { ops[2] } else { ops[1] };
        let v1 = operand_val_spec(o1.kind, c);
        let v2 = operand_val_spec(o2.kind, c);
        let c2 = match target {
            Some(reg) => set_reg_val_spec(reg, wsub(v1, v2), c),
            None => c,
        };
        if inst.op == Op::SUBS || is_cmp {
            with_flags(c2, if op_is_w(o1.kind) { sub_flags32(v1, v2) } else { sub_flags64(v1, v2) })
        } else {
            c2
        }
    }
}

pub fn exec_sub(ctx: &mut CpuContext, inst: &Instruction)
    ensures
        final(ctx)@ == sub_spec(old(ctx)@, *inst),
{
    let ops = &inst.operands;
    if ops.len() < 2 {
        return;
    }
    let is_cmp = inst.op == Op::CMP;
    let (target_reg, op1, op2) = if is_cmp {
        (None, &ops[0], &ops[1])
    } else if ops.len() >= 3 {
        (get_op_reg(&ops[0]), &ops[1], &ops[2])
    } else {
        (get_op_reg(&ops[0]), &ops[0], &ops[1])
    };
    let v1 = get_operand_val(op1, ctx);
    let v2 = get_operand_val(op2, ctx);
    if let Some(reg) = target_reg {
        set_reg_val(reg, v1.wrapping_sub(v2), ctx);
    }
    if inst.op == Op::SUBS || is_cmp {
        let is_32 = operand_is_w(op1);
        let (n, z, c, v) = sub_flags(v1, v2, is_32);
        ctx.set_nzcv(n, z, c, v);
    }
}

/// The register of a plain register operand (not a shifted or qualified one).
pub open spec fn plain_reg(op: OperandKind) -> Option<Reg> {
    match op {
        OperandKind::Reg { reg } => Some(reg),
        _ => None,
    }
}

pub fn plain_reg_of(op: &Operand) -> (r: Option<Reg>)
    ensures
        r == plain_reg(op.kind),
{
    match &op.kind {
        OperandKind::Reg { reg } => Some(*reg),
        _ => None,
    }
}

/// NEG/NEGS: the destination (a plain register) takes `0 - v`; NEGS sets the flags of
/// that subtraction, 32-bit for a W destination.
pub open spec fn neg_spec(c: CpuView, inst: Instruction) -> CpuView {
    let ops = inst.operands@;
    if ops.len() < 2 || plain_reg(ops[0].kind) is None {
        c
    } else {
        let reg = plain_reg(ops[0].kind)->0;
        let v2 = operand_val_spec(ops[1].kind, c);
        let c2 = set_reg_val_spec(reg, wsub(0, v2), c);
        if inst.op == Op::NEGS {
            with_flags(c2, if is_w_reg_spec(reg) { sub_flags32(0, v2) } else { sub_flags64(0, v2) })
        } else {
            c2
        }
    }
}

pub fn exec_neg(ctx: &mut CpuContext, inst: &Instruction)
    ensures
        final(ctx)@ == neg_spec(old(ctx)@, *inst),
{
    let ops = &inst.operands;
    if ops.len() < 2 {
        return;
    }
    if let Some(reg) = plain_reg_of(&ops[0]) {
        let v2 = get_operand_val(&ops[1], ctx);
        set_reg_val(reg, 0u64.wrapping_sub(v2), ctx);
        if inst.op == Op::NEGS {
            let (n, z, c, v) = sub_flags(0, v2, is_w_reg(reg));
            ctx.set_nzcv(n, z, c, v);
        }
    }
}

// MOV, MOVI, MVNI, DUP, MOVK, MOVN, MOVZ, MVN ---------------------------------

/// MOV/MOVI/DUP (`invert` false) and MVNI (`invert` true): a SIMD destination takes the
/// source value (inverted for MVNI) in every element of the size its arrangement names;
/// a general destination takes the value (inverted for MVNI).
pub open spec fn splat_spec(c: CpuView, inst: Instruction, invert: bool) -> CpuView {
    let ops = inst.operands@;
    if ops.len() < 2 || get_op_reg_spec(ops[0].kind) is None {
        c
    } else {
        let reg = get_op_reg_spec(ops[0].kind)->0;
        let raw = operand_val_spec(ops[1].kind, c);
        let val = if invert { !raw } else { raw };
        if v_reg_idx_spec(reg) is Some {
            let esz = vec_elem_size_spec(ops[0].text@) as int;
            with_v(c, v_reg_idx_spec(reg)->0 as int, lanewise_spec(LaneKind::Splat, Seq::new(16, |k: int| 0u8), None, val, esz))
        } else {
            set_reg_val_spec(reg, val, c)
        }
    }
}

pub fn exec_splat(ctx: &mut CpuContext, inst: &Instruction, invert: bool)
    ensures
        final(ctx)@ == splat_spec(old(ctx)@, *inst, invert),
{
    let ops = &inst.operands;
    if ops.len() < 2 {
        return;
    }
    if let Some(reg) = get_op_reg(&ops[0]) {
        let raw = get_operand_val(&ops[1], ctx);
        let val = if invert { !raw } else { raw };
        if let Some(idx) = v_reg_idx(reg) {
            let elem_sz = get_vec_elem_size(&ops[0]);
            let zero = [0u8; 16];
            assert(zero@ =~= Seq::new(16, |k: int| 0u8));
            let res = lanewise(LaneKind::Splat, &zero, None, val, elem_sz);
            ctx.v[idx] = res;
            assert(ctx@.v =~= old(ctx)@.v.update(idx as int, res@));
        } else {
            set_reg_val(reg, val, ctx);
        }
    }
}

/// The immediate of a MOVK operand and its shift amount.
pub open spec fn movk_parts(op: OperandKind, c: CpuView) -> (u64, u32) {
    match op {
        OperandKind::Imm64 { imm, shift } => (imm_u64_spec(imm), shift_val_spec(shift)),
        OperandKind::Imm32 { imm, shift } => (imm_u64_spec(imm), shift_val_spec(shift)),
        _ => (operand_val_spec(op, c), 0),
    }
}

/// The shift amount of an immediate operand (zero for anything else).
pub open spec fn imm_shift_amount(op: OperandKind) -> u32 {
    match op {
        OperandKind::Imm64 { shift, .. } => shift_val_spec(shift),
        OperandKind::Imm32 { shift, .. } => shift_val_spec(shift),
        _ => 0,
    }
}

fn imm_shift_amount_of(op: &Operand) -> (r: u32)
    ensures
        r == imm_shift_amount(op.kind),
{
    match &op.kind {
        OperandKind::Imm64 { shift, .. } => shift_val(shift.as_ref()),
        OperandKind::Imm32 { shift, .. } => shift_val(shift.as_ref()),
        _ => 0,
    }
}

/// MOVK, MOVN, MOVZ on a plain register destination with the 16-bit immediate `imm`
/// shifted left by `s` (modulo 64): MOVK replaces those 16 bits of the destination,
/// MOVN writes the inverted shifted immediate, MOVZ the shifted immediate.
pub open spec fn movw_spec(c: CpuView, inst: Instruction) -> CpuView {
    let ops = inst.operands@;
    if ops.len() < 2 || plain_reg(ops[0].kind) is None {
        c
    } else {
        let reg = plain_reg(ops[0].kind)->0;
        if inst.op == Op::MOVK {
            let (raw, s) = movk_parts(ops[1].kind, c);
            let imm = raw & 0xffff;
            let cur = get_reg_val_spec(reg, c);
            let mask = !(0xffffu64 << (s % 64));
            set_reg_val_spec(reg, (cur & mask) | (imm << (s % 64)), c)
        } else {
            let imm = operand_val_spec(ops[1].kind, c) & 0xffff;
            let s = imm_shift_amount(ops[1].kind);
            if inst.op == Op::MOVN {
                set_reg_val_spec(reg, !(imm << (s % 64)), c)
            } else {
                set_reg_val_spec(reg, imm << (s % 64), c)
            }
        }
    }
}

pub fn exec_movw(ctx: &mut CpuContext, inst: &Instruction)
    ensures
        final(ctx)@ == movw_spec(old(ctx)@, *inst),
{
    let ops = &inst.operands;
    if ops.len() < 2 {
        return;
    }
    if let Some(reg) = plain_reg_of(&ops[0]) {
        if inst.op == Op::MOVK {
            let (raw_imm, s_val) = match &ops[1].kind {
                OperandKind::Imm64 { imm, shift } => (imm_to_u64(imm), shift_val(shift.as_ref())),
                OperandKind::Imm32 { imm, shift } => (imm_to_u64(imm), shift_val(shift.as_ref())),
                _ => (get_operand_val(&ops[1], ctx), 0),
            };
            let imm = raw_imm & 0xffff;
            let cur_val = get_reg_val(reg, ctx);
            let mask = !(0xffffu64 << (s_val % 64));
            set_reg_val(reg, (cur_val & mask) | (imm << (s_val % 64)), ctx);
        } else {
            let imm = get_operand_val(&ops[1], ctx) & 0xffff;
            let s_val = imm_shift_amount_of(&ops[1]);
            if inst.op == Op::MOVN {
                set_reg_val(reg, !(imm << (s_val % 64)), ctx);
            } else {
                set_reg_val(reg, imm << (s_val % 64), ctx);
            }
        }
    }
}

// Unary operations on a plain or named destination ------------------------------

/// Which unary conversion an instruction applies.
pub open spec fn unary_value(op: Op, v: u64, is_32: bool) -> u64 {
    match op {
        Op::MVN => !v,
        Op::SXTW => ((v as i32) as i64) as u64,
        Op::SXTH => ((v as i16) as i64) as u64,
        Op::SXTB => ((v as i8) as i64) as u64,
        Op::UXTW => (v as u32) as u64,
        Op::UXTH => (v as u16) as u64,
        Op::UXTB => (v as u8) as u64,
        Op::ADRP => v & !0xfffu64,
        _ => v,
    }
}

/// MVN, ADR and ADRP (plain register destination), and the sign and zero extensions
/// (any named destination): the destination takes the converted source value.
pub open spec fn unary_spec(c: CpuView, inst: Instruction) -> CpuView {
    let ops = inst.operands@;
    let dest = if inst.op == Op::MVN || inst.op == Op::ADR || inst.op == Op::ADRP {
        if ops.len() >= 2 { plain_reg(ops[0].kind) } else { None }
    } else {
        if ops.len() >= 2 { get_op_reg_spec(ops[0].kind) } else { None }
    };
    match dest {
        Some(reg) => set_reg_val_spec(reg, unary_value(inst.op, operand_val_spec(ops[1].kind, c), is_w_reg_spec(reg)), c),
        None => c,
    }
}

pub fn exec_unary(ctx: &mut CpuContext, inst: &Instruction)
    ensures
        final(ctx)@ == unary_spec(old(ctx)@, *inst),
{
    let ops = &inst.operands;
    if ops.len() < 2 {
        return;
    }
    let dest = if inst.op == Op::MVN || inst.op == Op::ADR || inst.op == Op::ADRP {
        plain_reg_of(&ops[0])
    } else {
        get_op_reg(&ops[0])
    };
    if let Some(reg) = dest {
        let v = get_operand_val(&ops[1], ctx);
        let val = match inst.op {
            Op::MVN => !v,
            Op::SXTW => ((v as i32) as i64) as u64,
            Op::SXTH => ((v as i16) as i64) as u64,
            Op::SXTB => ((v as i8) as i64) as u64,
            Op::UXTW => (v as u32) as u64,
            Op::UXTH => (v as u16) as u64,
            Op::UXTB => (v as u8) as u64,
            Op::ADRP => v & !0xfffu64,
            _ => v,
        };
        set_reg_val(reg, val, ctx);
    }
}


// Multiplication and division ----------------------------------------------------

/// Operands a multiply/divide needs and how its destination is named.
pub open spec fn muldiv_arity(op: Op) -> int {
    match op {
        Op::MADD | Op::MSUB | Op::SMADDL | Op::UMADDL | Op::SMSUBL | Op::UMSUBL => 4,
        _ => 3,
    }
}

/// The destination of a multiply/divide: a plain register for UDIV, SDIV, MUL, MADD,
/// MSUB, MNEG, SMULL and UMULL; any named register for the others.
pub open spec fn muldiv_dest(op: Op, o: OperandKind) -> Option<Reg> {
    match op {
        Op::UMULH | Op::SMULH | Op::SMADDL | Op::UMADDL | Op::SMSUBL | Op::UMSUBL => get_op_reg_spec(o),
        _ => plain_reg(o),
    }
}

/// Magnitude of a signed value.
pub open spec fn abs_int(a: int) -> int {
    if a < 0 { -a } else { a }
}

/// Signed division rounding toward zero, wrapped to 64 bits (the minimum divided by -1
/// gives the minimum); a zero divisor gives zero.
pub open spec fn sdiv64(a: i64, b: i64) -> u64 {
    if b == 0 {
        0
    } else {
        let q = (abs_int(a as int) / abs_int(b as int)) as u64;
        if (a < 0) != (b < 0) { wsub(0, q) } else { q }
    }
}

/// Signed 32-bit division rounding toward zero, wrapped to 32 bits, zero-extended; a zero
/// divisor gives zero.
pub open spec fn sdiv32(a: i32, b: i32) -> u64 {
    if b == 0 {
        0
    } else {
        let q = (abs_int(a as int) / abs_int(b as int)) as u32;
        (if (a < 0) != (b < 0) { vstd::wrapping::u32_specs::wrapping_sub(0, q) } else { q }) as u64
    }
}

fn sdiv64_exec(a: i64, b: i64) -> (r: u64)
    requires
        !(a == i64::MIN && b == -1),
    ensures
        r == sdiv64(a, b),
{
    if b == 0 {
        return 0;
    }
    let ua: u64 = if a < 0 { (-(a as i128)) as u64 } else { a as u64 };
    let ub: u64 = if b < 0 { (-(b as i128)) as u64 } else { b as u64 };
    let q = ua / ub;
    if (a < 0) != (b < 0) { 0u64.wrapping_sub(q) } else { q }
}

fn sdiv32_exec(a: i32, b: i32) -> (r: u64)
    requires
        !(a == i32::MIN && b == -1),
    ensures
        r == sdiv32(a, b),
{
    if b == 0 {
        return 0;
    }
    let ua: u32 = if a < 0 { (-(a as i64)) as u32 } else { a as u32 };
    let ub: u32 = if b < 0 { (-(b as i64)) as u32 } else { b as u32 };
    let q = ua / ub;
    (if (a < 0) != (b < 0) { 0u32.wrapping_sub(q) } else { q }) as u64
}

/// A signed division whose quotient does not fit: the minimum divided by minus one.
pub open spec fn muldiv_traps(op: Op, x1: u64, x2: u64, is_32: bool) -> bool {
    &&& op == Op::SDIV
    &&& if is_32 {
        x1 as i32 == i32::MIN && x2 as i32 == -1
    } else {
        x1 as i64 == i64::MIN && x2 as i64 == -1
    }
}

/// The value a multiply/divide writes, from its source values and destination width.
pub open spec fn muldiv_value(op: Op, x1: u64, x2: u64, x3: u64, is_32: bool) -> u64 {
    let t1 = if is_32 { (x1 as u32) as u64 } else { x1 };
    let t2 = if is_32 { (x2 as u32) as u64 } else { x2 };
    let t3 = if is_32 { (x3 as u32) as u64 } else { x3 };
    match op {
        Op::UDIV => if t2 == 0 { 0 } else { t1 / t2 },
        Op::SDIV => if is_32 { sdiv32(x1 as i32, x2 as i32) } else { sdiv64(x1 as i64, x2 as i64) },
        Op::MUL => wmul(x1, x2),
        Op::UMULH => (((x1 as u128) * (x2 as u128)) as u128 >> 64u32) as u64,
        Op::SMULH => ((((x1 as i64) as i128) * ((x2 as i64) as i128)) as i128 >> 64u32) as u64,
        Op::MADD => wadd(t3, wmul(t1, t2)),
        Op::MSUB => wsub(t3, wmul(t1, t2)),
        Op::MNEG => wsub(0, wmul(t1, t2)),
        Op::SMULL => ((((x1 as i32) as i64) * ((x2 as i32) as i64)) as i64) as u64,
        Op::UMULL => (((x1 as u32) as u64) * ((x2 as u32) as u64)) as u64,
        Op::SMADDL => vstd::wrapping::i64_specs::wrapping_add(x3 as i64, (((x1 as i32) as i64) * ((x2 as i32) as i64)) as i64) as u64,
        Op::UMADDL => wadd(x3, (((x1 as u32) as u64) * ((x2 as u32) as u64)) as u64),
        Op::SMSUBL => vstd::wrapping::i64_specs::wrapping_sub(x3 as i64, (((x1 as i32) as i64) * ((x2 as i32) as i64)) as i64) as u64,
        _ => wsub(x3, (((x1 as u32) as u64) * ((x2 as u32) as u64)) as u64),
    }
}

/// UDIV, SDIV, MUL, UMULH, SMULH, MADD, MSUB, MNEG, SMULL, UMULL, SMADDL, UMADDL, SMSUBL,
/// UMSUBL: the destination takes the value of the operation on the source operands.
pub open spec fn muldiv_spec(c: CpuView, inst: Instruction) -> CpuView {
    let ops = inst.operands@;
    if ops.len() < muldiv_arity(inst.op) || muldiv_dest(inst.op, ops[0].kind) is None {
        c
    } else {
        let reg = muldiv_dest(inst.op, ops[0].kind)->0;
        let x1 = operand_val_spec(ops[1].kind, c);
        let x2 = operand_val_spec(ops[2].kind, c);
        let x3 = if ops.len() >= 4 { operand_val_spec(ops[3].kind, c) } else { 0 };
        set_reg_val_spec(reg, muldiv_value(inst.op, x1, x2, x3, is_w_reg_spec(reg)), c)
    }
}

/// Whether a multiply/divide on this state would divide the minimum by minus one.
pub open spec fn muldiv_traps_at(c: CpuView, inst: Instruction) -> bool {
    let ops = inst.operands@;
    &&& ops.len() >= muldiv_arity(inst.op)
    &&& muldiv_dest(inst.op, ops[0].kind) is Some
    &&& muldiv_traps(
        inst.op,
        operand_val_spec(ops[1].kind, c),
        operand_val_spec(ops[2].kind, c),
        is_w_reg_spec(muldiv_dest(inst.op, ops[0].kind)->0),
    )
}

fn muldiv_calc(op: Op, x1: u64, x2: u64, x3: u64, is_32: bool) -> (r: u64)
    requires
        !muldiv_traps(op, x1, x2, is_32),
    ensures
        r == muldiv_value(op, x1, x2, x3, is_32),
{
    let t1 = if is_32 { (x1 as u32) as u64 } else { x1 };
    let t2 = if is_32 { (x2 as u32) as u64 } else { x2 };
    let t3 = if is_32 { (x3 as u32) as u64 } else { x3 };
    let a32 = (x1 as u32) as u64;
    let b32 = (x2 as u32) as u64;
    assert(a32 * b32 <= 0xffff_fffe_0000_0001) by (nonlinear_arith)
        requires
            a32 <= 0xffff_ffff,
            b32 <= 0xffff_ffff,
    ;
    let sa = (x1 as i32) as i64;
    let sb = (x2 as i32) as i64;
    assert(-0x4000_0000_0000_0000 <= sa * sb <= 0x4000_0000_0000_0000) by (nonlinear_arith)
        requires
            -0x8000_0000 <= sa <= 0x7fff_ffff,
            -0x8000_0000 <= sb <= 0x7fff_ffff,
    ;
    match op {
        Op::UDIV => if t2 == 0 { 0 } else { t1 / t2 },
        Op::SDIV => if is_32 { sdiv32_exec(x1 as i32, x2 as i32) } else { sdiv64_exec(x1 as i64, x2 as i64) },
        Op::MUL => x1.wrapping_mul(x2),
        Op::UMULH => {
            let a = x1 as u128;
            let b = x2 as u128;
            assert(a * b <= 0xffff_ffff_ffff_fffe_0000_0000_0000_0001) by (nonlinear_arith)
                requires
                    a <= 0xffff_ffff_ffff_ffff,
                    b <= 0xffff_ffff_ffff_ffff,
            ;
            let p = a * b;
            (p >> 64u32) as u64
        },
        Op::SMULH => {
            let a = (x1 as i64) as i128;
            let b = (x2 as i64) as i128;
            assert(-0x4000_0000_0000_0000_0000_0000_0000_0000 <= a * b <= 0x4000_0000_0000_0000_0000_0000_0000_0000) by (nonlinear_arith)
                requires
                    -0x8000_0000_0000_0000 <= a <= 0x7fff_ffff_ffff_ffff,
                    -0x8000_0000_0000_0000 <= b <= 0x7fff_ffff_ffff_ffff,
            ;
            let p = a * b;
            (p >> 64u32) as u64
        },
        Op::MADD => t3.wrapping_add(t1.wrapping_mul(t2)),
        Op::MSUB => t3.wrapping_sub(t1.wrapping_mul(t2)),
        Op::MNEG => 0u64.wrapping_sub(t1.wrapping_mul(t2)),
        Op::SMULL => (sa * sb) as u64,
        Op::UMULL => a32 * b32,
        Op::SMADDL => (x3 as i64).wrapping_add(sa * sb) as u64,
        Op::UMADDL => x3.wrapping_add(a32 * b32),
        Op::SMSUBL => (x3 as i64).wrapping_sub(sa * sb) as u64,
        _ => x3.wrapping_sub(a32 * b32),
    }
}

/// Whether the instruction is an SDIV of the minimum by minus one, which the division
/// cannot carry out.
pub fn muldiv_would_trap(ctx: &CpuContext, inst: &Instruction) -> (r: bool)
    ensures
        r == muldiv_traps_at(ctx@, *inst),
{
    let ops = &inst.operands;
    let arity: usize = match inst.op {
        Op::MADD | Op::MSUB | Op::SMADDL | Op::UMADDL | Op::SMSUBL | Op::UMSUBL => 4,
        _ => 3,
    };
    if ops.len() < arity {
        return false;
    }
    let dest = match inst.op {
        Op::UMULH | Op::SMULH | Op::SMADDL | Op::UMADDL | Op::SMSUBL | Op::UMSUBL => get_op_reg(&ops[0]),
        _ => plain_reg_of(&ops[0]),
    };
    match dest {
        None => false,
        Some(reg) => {
            if inst.op != Op::SDIV {
                return false;
            }
            let x1 = get_operand_val(&ops[1], ctx);
            let x2 = get_operand_val(&ops[2], ctx);
            if is_w_reg(reg) {
                x1 as i32 == i32::MIN && x2 as i32 == -1
            } else {
                x1 as i64 == i64::MIN && x2 as i64 == -1
            }
        },
    }
}

pub fn exec_muldiv(ctx: &mut CpuContext, inst: &Instruction)
    requires
        !muldiv_traps_at(old(ctx)@, *inst),
    ensures
        final(ctx)@ == muldiv_spec(old(ctx)@, *inst),
{
    let ops = &inst.operands;
    let arity: usize = match inst.op {
        Op::MADD | Op::MSUB | Op::SMADDL | Op::UMADDL | Op::SMSUBL | Op::UMSUBL => 4,
        _ => 3,
    };
    if ops.len() < arity {
        return;
    }
    let dest = match inst.op {
        Op::UMULH | Op::SMULH | Op::SMADDL | Op::UMADDL | Op::SMSUBL | Op::UMSUBL => get_op_reg(&ops[0]),
        _ => plain_reg_of(&ops[0]),
    };
    if let Some(reg) = dest {
        let x1 = get_operand_val(&ops[1], ctx);
        let x2 = get_operand_val(&ops[2], ctx);
        let x3 = if ops.len() >= 4 { get_operand_val(&ops[3], ctx) } else { 0 };
        let val = muldiv_calc(inst.op, x1, x2, x3, is_w_reg(reg));
        set_reg_val(reg, val, ctx);
    }
}

} // verus!
