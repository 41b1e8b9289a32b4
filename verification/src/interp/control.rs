//! Branches, conditional selects and compares, and system registers.

use vstd::prelude::*;
use crate::cpu::{CpuContext, CpuView};
use crate::decoder::{Condition, Instruction, Op, Operand, OperandKind};
use crate::interp::{
    add_flags, add_flags32, add_flags64, cond_holds, eval_cond, get_op_reg, get_op_reg_spec, get_operand_val, op_is_w,
    operand_is_w, operand_val_spec, set_reg_val, set_reg_val_spec, sub_flags, sub_flags32, sub_flags64, wadd,
    with_flags,
};
use crate::interp::scan::{contains_bytes, has_sub};

verus! {

// Branches -------------------------------------------------------------------------

/// The condition a conditional branch tests.
pub open spec fn branch_cond(op: Op) -> Option<Condition> {
    match op {
        Op::B_EQ => Some(Condition::EQ),
        Op::B_NE => Some(Condition::NE),
        Op::B_CS => Some(Condition::CS),
        Op::B_CC => Some(Condition::CC),
        Op::B_MI => Some(Condition::MI),
        Op::B_PL => Some(Condition::PL),
        Op::B_VS => Some(Condition::VS),
        Op::B_VC => Some(Condition::VC),
        Op::B_HI => Some(Condition::HI),
        Op::B_LS => Some(Condition::LS),
        Op::B_GE => Some(Condition::GE),
        Op::B_LT => Some(Condition::LT),
        Op::B_GT => Some(Condition::GT),
        Op::B_LE => Some(Condition::LE),
        _ => None,
    }
}

fn branch_cond_of(op: Op) -> (r: Option<Condition>)
    ensures
        r == branch_cond(op),
{
    match op {
        Op::B_EQ => Some(Condition::EQ),
        Op::B_NE => Some(Condition::NE),
        Op::B_CS => Some(Condition::CS),
        Op::B_CC => Some(Condition::CC),
        Op::B_MI => Some(Condition::MI),
        Op::B_PL => Some(Condition::PL),
        Op::B_VS => Some(Condition::VS),
        Op::B_VC => Some(Condition::VC),
        Op::B_HI => Some(Condition::HI),
        Op::B_LS => Some(Condition::LS),
        Op::B_GE => Some(Condition::GE),
        Op::B_LT => Some(Condition::LT),
        Op::B_GT => Some(Condition::GT),
        Op::B_LE => Some(Condition::LE),
        _ => None,
    }
}

/// The branch instructions.
pub open spec fn is_branch(op: Op) -> bool {
    op == Op::B || branch_cond(op) is Some || op == Op::CBZ || op == Op::CBNZ || op == Op::TBZ || op == Op::TBNZ
        || op == Op::BL || op == Op::BLR || op == Op::BR || op == Op::RET
}

/// A branch: the program counter moves to the target when the branch is taken and to
/// the next instruction (`pc + 4`, modulo 2^64) otherwise. B, BR take the first
/// operand's value; B.cond when its condition holds; CBZ/CBNZ the second operand when
/// the first is zero / nonzero; TBZ/TBNZ the third when bit `b % 64` of the first is
/// clear / set; BL/BLR first write the return address to X30, then take the first
/// operand's value; RET takes X30. Missing operands mean no branch.
pub open spec fn branch_spec(c: CpuView, inst: Instruction) -> CpuView {
    let ops = inst.operands@;
    let op = inst.op;
    let next = wadd(c.pc, 4);
    if op == Op::BL || op == Op::BLR {
        if ops.len() == 0 {
            CpuView { pc: next, ..c }
        } else {
            let c1 = c.with_x(30, next);
            CpuView { pc: operand_val_spec(ops[0].kind, c1), ..c1 }
        }
    } else {
        let target = if op == Op::RET {
            c.xreg(30)
        } else if op == Op::B || op == Op::BR {
            if ops.len() >= 1 { operand_val_spec(ops[0].kind, c) } else { next }
        } else if op == Op::CBZ || op == Op::CBNZ {
            if ops.len() >= 2 && ((operand_val_spec(ops[0].kind, c) == 0) == (op == Op::CBZ)) {
                operand_val_spec(ops[1].kind, c)
            } else {
                next
            }
        } else if op == Op::TBZ || op == Op::TBNZ {
            if ops.len() >= 3 {
                let bit_set = operand_val_spec(ops[0].kind, c) & (1u64 << (operand_val_spec(ops[1].kind, c) % 64)) != 0;
                if bit_set == (op == Op::TBNZ) { operand_val_spec(ops[2].kind, c) } else { next }
            } else {
                next
            }
        } else {
            match branch_cond(op) {
                Some(cond) => if ops.len() >= 1 && cond_holds(cond, c) { operand_val_spec(ops[0].kind, c) } else { next },
                None => next,
            }
        };
        CpuView { pc: target, ..c }
    }
}

pub fn exec_branch(ctx: &mut CpuContext, inst: &Instruction)
    requires
        is_branch(inst.op),
    ensures
        final(ctx)@ == branch_spec(old(ctx)@, *inst),
{
    let ops = &inst.operands;
    let op = inst.op;
    let next = ctx.pc.wrapping_add(4);
    if op == Op::BL || op == Op::BLR {
        if ops.len() == 0 {
            ctx.pc = next;
        } else {
            ctx.set_x(30, next);
            ctx.pc = get_operand_val(&ops[0], ctx);
        }
        return;
    }
    let target = if op == Op::RET {
        ctx.get_x(30)
    } else if op == Op::B || op == Op::BR {
        if ops.len() >= 1 { get_operand_val(&ops[0], ctx) } else { next }
    } else if op == Op::CBZ || op == Op::CBNZ {
        if ops.len() >= 2 && ((get_operand_val(&ops[0], ctx) == 0) == (op == Op::CBZ)) {
            get_operand_val(&ops[1], ctx)
        } else {
            next
        }
    } else if op == Op::TBZ || op == Op::TBNZ {
        if ops.len() >= 3 {
            let bit_set = get_operand_val(&ops[0], ctx) & (1u64 << (get_operand_val(&ops[1], ctx) % 64)) != 0;
            if bit_set == (op == Op::TBNZ) { get_operand_val(&ops[2], ctx) } else { next }
        } else {
            next
        }
    } else {
        match branch_cond_of(op) {
            Some(cond) => if ops.len() >= 1 && eval_cond(&cond, ctx) { get_operand_val(&ops[0], ctx) } else { next },
            None => next,
        }
    };
    ctx.pc = target;
}

// Conditional select and compare ------------------------------------------------------

/// The condition an operand carries.
pub open spec fn cond_of(o: OperandKind) -> Option<Condition> {
    match o {
        OperandKind::Cond(c) => Some(c),
        _ => None,
    }
}

fn cond_operand(o: &Operand) -> (r: Option<Condition>)
    ensures
        r == cond_of(o.kind),
{
    match &o.kind {
        OperandKind::Cond(c) => Some(*c),
        _ => None,
    }
}

/// CSEL/CSINC/CSINV/CSNEG (destination, two sources, condition): the first source when
/// the condition holds, else the second (plus one, inverted, negated). CINC/CINV/CNEG
/// (destination, source, condition): the source incremented, inverted, negated when
/// the condition holds, else unchanged. CSET/CSETM (destination, condition): 1 or all
/// ones when it holds, else 0. Arithmetic wraps modulo 2^64.
pub open spec fn csel_spec(c: CpuView, inst: Instruction) -> CpuView {
    let ops = inst.operands@;
    let op = inst.op;
    let (n, ci) = if op == Op::CSET || op == Op::CSETM {
        (2int, 1int)
    } else if op == Op::CINC || op == Op::CINV || op == Op::CNEG {
        (3int, 2int)
    } else {
        (4int, 3int)
    };
    if ops.len() < n || get_op_reg_spec(ops[0].kind) is None || cond_of(ops[ci].kind) is None {
        c
    } else {
        let holds = cond_holds(cond_of(ops[ci].kind)->0, c);
        let res = if op == Op::CSET || op == Op::CSETM {
            if holds { if op == Op::CSETM { !0u64 } else { 1u64 } } else { 0u64 }
        } else if op == Op::CINC || op == Op::CINV || op == Op::CNEG {
            let v = operand_val_spec(ops[1].kind, c);
            if !holds { v } else if op == Op::CINC { wadd(v, 1) } else if op == Op::CINV { !v } else { crate::interp::wsub(0, v) }
        } else if holds {
            operand_val_spec(ops[1].kind, c)
        } else {
            let v = operand_val_spec(ops[2].kind, c);
            if op == Op::CSINC { wadd(v, 1) } else if op == Op::CSINV { !v } else if op == Op::CSNEG { crate::interp::wsub(0, v) } else { v }
        };
        set_reg_val_spec(get_op_reg_spec(ops[0].kind)->0, res, c)
    }
}

pub fn exec_csel(ctx: &mut CpuContext, inst: &Instruction)
    ensures
        final(ctx)@ == csel_spec(old(ctx)@, *inst),
{
    let ops = &inst.operands;
    let op = inst.op;
    let (n, ci): (usize, usize) = if op == Op::CSET || op == Op::CSETM {
        (2, 1)
    } else if op == Op::CINC || op == Op::CINV || op == Op::CNEG {
        (3, 2)
    } else {
        (4, 3)
    };
    if ops.len() < n {
        return;
    }
    let rd = match get_op_reg(&ops[0]) {
        Some(r) => r,
        None => return,
    };
    let cond = match cond_operand(&ops[ci]) {
        Some(c) => c,
        None => return,
    };
    let holds = eval_cond(&cond, ctx);
    let res = if op == Op::CSET || op == Op::CSETM {
        if holds { if op == Op::CSETM { !0u64 } else { 1u64 } } else { 0u64 }
    } else if op == Op::CINC || op == Op::CINV || op == Op::CNEG {
        let v = get_operand_val(&ops[1], ctx);
        if !holds { v } else if op == Op::CINC { v.wrapping_add(1) } else if op == Op::CINV { !v } else { 0u64.wrapping_sub(v) }
    } else if holds {
        get_operand_val(&ops[1], ctx)
    } else {
        let v = get_operand_val(&ops[2], ctx);
        if op == Op::CSINC { v.wrapping_add(1) } else if op == Op::CSINV { !v } else if op == Op::CSNEG { 0u64.wrapping_sub(v) } else { v }
    };
    set_reg_val(rd, res, ctx);
}

/// CCMP/CCMN (two operands, flag immediate, condition): when the condition holds, the
/// flags of the subtraction (CCMP) or addition (CCMN) of the two operands, 32-bit when
/// the first names a W register; otherwise N, Z, C, V from bits 3..0 of the immediate.
pub open spec fn cond_compare_spec(c: CpuView, inst: Instruction) -> CpuView {
    let ops = inst.operands@;
    if ops.len() < 4 || cond_of(ops[3].kind) is None {
        c
    } else if cond_holds(cond_of(ops[3].kind)->0, c) {
        let v1 = operand_val_spec(ops[0].kind, c);
        let v2 = operand_val_spec(ops[1].kind, c);
        let is_32 = op_is_w(ops[0].kind);
        with_flags(c, if inst.op == Op::CCMN {
            if is_32 { add_flags32(v1, v2) } else { add_flags64(v1, v2) }
        } else {
            if is_32 { sub_flags32(v1, v2) } else { sub_flags64(v1, v2) }
        })
    } else {
        let imm = operand_val_spec(ops[2].kind, c) as u8;
        c.with_nzcv(imm & 8 != 0, imm & 4 != 0, imm & 2 != 0, imm & 1 != 0)
    }
}

pub fn exec_cond_compare(ctx: &mut CpuContext, inst: &Instruction)
    ensures
        final(ctx)@ == cond_compare_spec(old(ctx)@, *inst),
{
    let ops = &inst.operands;
    if ops.len() < 4 {
        return;
    }
    let cond = match cond_operand(&ops[3]) {
        Some(c) => c,
        None => return,
    };
    if eval_cond(&cond, ctx) {
        let v1 = get_operand_val(&ops[0], ctx);
        let v2 = get_operand_val(&ops[1], ctx);
        let is_32 = operand_is_w(&ops[0]);
        let (n, z, c, v) = if inst.op == Op::CCMN { add_flags(v1, v2, is_32) } else { sub_flags(v1, v2, is_32) };
        ctx.set_nzcv(n, z, c, v);
    } else {
        let imm = get_operand_val(&ops[2], ctx) as u8;
        ctx.set_nzcv(imm & 8 != 0, imm & 4 != 0, imm & 2 != 0, imm & 1 != 0);
    }
}

// System registers ----------------------------------------------------------------------

/// `TPIDR_EL0`.
pub open spec fn tpidr_upper() -> Seq<u8> {
    seq![84u8, 80u8, 73u8, 68u8, 82u8, 95u8, 69u8, 76u8, 48u8]
}

/// `tpidr_el0`.
pub open spec fn tpidr_lower() -> Seq<u8> {
    seq![116u8, 112u8, 105u8, 100u8, 114u8, 95u8, 101u8, 108u8, 48u8]
}

/// `DCZID`.
pub open spec fn dczid_upper() -> Seq<u8> {
    seq![68u8, 67u8, 90u8, 73u8, 68u8]
}

/// `dczid`.
pub open spec fn dczid_lower() -> Seq<u8> {
    seq![100u8, 99u8, 122u8, 105u8, 100u8]
}

/// `CNT`.
pub open spec fn cnt_name() -> Seq<u8> {
    seq![67u8, 78u8, 84u8]
}

/// The operand text names the thread pointer register.
pub open spec fn names_tpidr(t: Seq<u8>) -> bool {
    has_sub(t, tpidr_upper()) || has_sub(t, tpidr_lower())
}

fn names_tpidr_text(t: &[u8]) -> (r: bool)
    ensures
        r == names_tpidr(t@),
{
    let a: [u8; 9] = [84, 80, 73, 68, 82, 95, 69, 76, 48];
    let b: [u8; 9] = [116, 112, 105, 100, 114, 95, 101, 108, 48];
    assert(a@ =~= tpidr_upper());
    assert(b@ =~= tpidr_lower());
    contains_bytes(t, &a) || contains_bytes(t, &b)
}

/// What MRS reads from the system register an operand's text names: TPIDR_EL0 the
/// thread pointer; DCZID 0x10 (zeroing by DC ZVA prohibited); a counter register
/// (`CNT`) 1000000000; anything else 0.
pub open spec fn sysreg_read(t: Seq<u8>, c: CpuView) -> u64 {
    if names_tpidr(t) {
        c.tpidr_el0
    } else if has_sub(t, dczid_upper()) || has_sub(t, dczid_lower()) {
        0x10
    } else if has_sub(t, cnt_name()) {
        1000000000
    } else {
        0
    }
}

/// MRS writes the system register named by the second operand to the register the
/// first names; MSR writes the second operand's value to TPIDR_EL0 when the first names
/// it, and ignores any other system register.
pub open spec fn sysreg_spec(c: CpuView, inst: Instruction) -> CpuView {
    let ops = inst.operands@;
    if ops.len() < 2 {
        c
    } else if inst.op == Op::MRS {
        match get_op_reg_spec(ops[0].kind) {
            Some(reg) => set_reg_val_spec(reg, sysreg_read(ops[1].text@, c), c),
            None => c,
        }
    } else if names_tpidr(ops[0].text@) {
        CpuView { tpidr_el0: operand_val_spec(ops[1].kind, c), ..c }
    } else {
        c
    }
}

pub fn exec_sysreg(ctx: &mut CpuContext, inst: &Instruction)
    ensures
        final(ctx)@ == sysreg_spec(old(ctx)@, *inst),
{
    let ops = &inst.operands;
    if ops.len() < 2 {
        return;
    }
    if inst.op == Op::MRS {
        let t = ops[1].text.as_slice();
        let val = if names_tpidr_text(t) {
            ctx.tpidr_el0
        } else {
            let d1: [u8; 5] = [68, 67, 90, 73, 68];
            let d2: [u8; 5] = [100, 99, 122, 105, 100];
            let cn: [u8; 3] = [67, 78, 84];
            assert(d1@ =~= dczid_upper());
            assert(d2@ =~= dczid_lower());
            assert(cn@ =~= cnt_name());
            if contains_bytes(t, &d1) || contains_bytes(t, &d2) {
                0x10
            } else if contains_bytes(t, &cn) {
                1000000000
            } else {
                0
            }
        };
        if let Some(reg) = get_op_reg(&ops[0]) {
            set_reg_val(reg, val, ctx);
        }
    } else if names_tpidr_text(ops[0].text.as_slice()) {
        ctx.tpidr_el0 = get_operand_val(&ops[1], ctx);
    }
}

} // verus!
