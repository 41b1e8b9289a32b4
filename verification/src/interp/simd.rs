//! Vector instructions on the 16-byte SIMD registers.

use vstd::prelude::*;
use crate::cpu::{CpuContext, CpuView};
use crate::decoder::{Instruction, Op, Operand, OperandKind, Reg};
use crate::interp::{
    get_op_reg, get_op_reg_spec, get_operand_val, get_vec_elem_size, is_64bit_vector, is_w_reg, is_w_reg_spec,
    le_bytes, le_value, le_value_of, lemma_le_value_prefix, operand_val_spec, put_le, set_reg_val, set_reg_val_spec,
    v_reg_idx, v_reg_idx_spec,
};
use crate::interp::alu::{vec_operand, vec_operand_spec, with_v};
use crate::interp::lanes::{esz_ok, lane_byte, lane_gt_signed, lanewise, lanewise_spec, lemma_lane_pos, LaneKind};
use crate::interp::scan::{elem_index, element_index, is_64bit_vector_spec, vec_elem_size_spec};

verus! {

// Lanes ---------------------------------------------------------------------------

/// The little-endian value of the `n` bytes of `v` from byte `start`.
pub open spec fn lane_at(v: Seq<u8>, start: int, n: int) -> u64 {
    le_value(v.subrange(start, start + n), n)
}

/// `res` with `vals` stored as consecutive lanes of `esz` bytes from byte `base`, each
/// value truncated to its lane.
pub open spec fn put_lanes(res: Seq<u8>, base: int, esz: int, vals: Seq<u64>) -> Seq<u8> {
    Seq::new(16, |k: int| if base <= k < base + vals.len() * esz {
        lane_byte(vals[(k - base) / esz], (k - base) % esz)
    } else {
        res[k]
    })
}

/// Stores `vals` as consecutive lanes of `esz` bytes from byte `base`.
pub fn put_lanes_exec(res: &mut [u8; 16], base: usize, esz: usize, vals: &Vec<u64>)
    requires
        1 <= esz <= 8,
        base + vals.len() * esz <= 16,
    ensures
        final(res)@ == put_lanes(old(res)@, base as int, esz as int, vals@),
{
    let n = vals.len();
    let mut i: usize = 0;
    while i < n
        invariant
            1 <= esz <= 8,
            n == vals.len(),
            base + n * esz <= 16,
            0 <= i <= n,
            res@ == put_lanes(old(res)@, base as int, esz as int, vals@.subrange(0, i as int)),
        decreases n - i,
    {
        assert(base + i * esz + esz <= 16) by (nonlinear_arith)
            requires
                i < n,
                base + n * esz <= 16,
                esz >= 1,
        ;
        let start = base + i * esz;
        let ghost before = res@;
        put_le(res, start, esz, vals[i]);
        let ghost sub = vals@.subrange(0, i + 1);
        assert((i + 1) * esz == i * esz + esz) by (nonlinear_arith);
        assert forall|k: int| 0 <= k < 16 implies res@[k] == #[trigger] put_lanes(old(res)@, base as int, esz as int, sub)[k] by {
            if start <= k < start + esz {
                let j = k - start;
                lemma_lane_pos(i as int, j, esz as int);
                assert(k - base == i * esz + j);
            } else if base <= k < start {
                let q = (k - base) / (esz as int);
                assert(0 <= q < i) by (nonlinear_arith)
                    requires
                        0 <= k - base < i * esz,
                        esz >= 1,
                        q == (k - base) / (esz as int),
                ;
                assert(before[k] == put_lanes(old(res)@, base as int, esz as int, vals@.subrange(0, i as int))[k]);
            }
        }
        assert(res@ =~= put_lanes(old(res)@, base as int, esz as int, sub));
        i = i + 1;
    }
    assert(vals@.subrange(0, n as int) =~= vals@);
}

/// Sixteen zero bytes.
pub open spec fn zero16() -> Seq<u8> {
    Seq::new(16, |k: int| 0u8)
}

fn zero_bytes() -> (r: [u8; 16])
    ensures
        r@ == zero16(),
{
    let z = [0u8; 16];
    assert(z@ =~= zero16());
    z
}

/// The SIMD register operand `i` names, else `dflt`.
pub open spec fn vec_operand_or(ops: Seq<Operand>, i: int, c: CpuView, dflt: Seq<u8>) -> Seq<u8> {
    if 0 <= i < ops.len() && get_op_reg_spec(ops[i].kind) is Some && v_reg_idx_spec(get_op_reg_spec(ops[i].kind)->0) is Some {
        c.v[v_reg_idx_spec(get_op_reg_spec(ops[i].kind)->0)->0 as int]
    } else {
        dflt
    }
}

fn vec_operand_or_exec(ops: &Vec<Operand>, i: usize, ctx: &CpuContext, dflt: [u8; 16]) -> (r: [u8; 16])
    ensures
        r@ == vec_operand_or(ops@, i as int, ctx@, dflt@),
{
    if i < ops.len() {
        if let Some(reg) = get_op_reg(&ops[i]) {
            if let Some(idx) = v_reg_idx(reg) {
                return ctx.v[idx];
            }
        }
    }
    dflt
}

/// Where a vector result goes: into the SIMD register the first operand names, or as
/// its low 8 bytes into a general register; nowhere when it names none.
pub open spec fn put_vec_result(c: CpuView, ops: Seq<Operand>, res: Seq<u8>) -> CpuView {
    if ops.len() >= 1 && get_op_reg_spec(ops[0].kind) is Some {
        let reg = get_op_reg_spec(ops[0].kind)->0;
        if v_reg_idx_spec(reg) is Some {
            with_v(c, v_reg_idx_spec(reg)->0 as int, res)
        } else {
            set_reg_val_spec(reg, le_value(res, 8), c)
        }
    } else {
        c
    }
}

fn store_vec_result(ctx: &mut CpuContext, ops: &Vec<Operand>, res: [u8; 16])
    ensures
        final(ctx)@ == put_vec_result(old(ctx)@, ops@, res@),
{
    if ops.len() >= 1 {
        if let Some(reg) = get_op_reg(&ops[0]) {
            if let Some(idx) = v_reg_idx(reg) {
                ctx.v[idx] = res;
                assert(ctx@.v =~= old(ctx)@.v.update(idx as int, res@));
            } else {
                let val = le_value_of(&res, 0, 8);
                proof { lemma_le_value_prefix(res@, 8); }
                set_reg_val(reg, val, ctx);
            }
        }
    }
}

// Bitwise selects, extraction, interleaving, narrowing and widening ------------------------

/// BIT/BIF/BSL on the registers of the three operands (zeros for a missing one): bits
/// of the second inserted where the third is set (BIT) or clear (BIF), or selected by
/// the first (BSL).
pub open spec fn bsel_spec(c: CpuView, inst: Instruction) -> CpuView {
    let ops = inst.operands@;
    if ops.len() < 3 {
        c
    } else {
        let d = vec_operand_spec(ops, 0, c);
        let n = vec_operand_spec(ops, 1, c);
        let m = vec_operand_spec(ops, 2, c);
        put_vec_result(c, ops, Seq::new(16, |k: int| if inst.op == Op::BIT {
            (d[k] & !m[k]) | (n[k] & m[k])
        } else if inst.op == Op::BIF {
            (d[k] & m[k]) | (n[k] & !m[k])
        } else {
            (n[k] & d[k]) | (m[k] & !d[k])
        }))
    }
}

pub fn exec_bsel(ctx: &mut CpuContext, inst: &Instruction)
    ensures
        final(ctx)@ == bsel_spec(old(ctx)@, *inst),
{
    let ops = &inst.operands;
    if ops.len() < 3 {
        return;
    }
    let op = inst.op;
    let d = vec_operand(ops, 0, ctx);
    let n = vec_operand(ops, 1, ctx);
    let m = vec_operand(ops, 2, ctx);
    let mut res = [0u8; 16];
    let mut k: usize = 0;
    while k < 16
        invariant
            0 <= k <= 16,
            forall|j: int| 0 <= j < k ==> res@[j] == (if op == Op::BIT {
                (d@[j] & !m@[j]) | (n@[j] & m@[j])
            } else if op == Op::BIF {
                (d@[j] & m@[j]) | (n@[j] & !m@[j])
            } else {
                (n@[j] & d@[j]) | (m@[j] & !d@[j])
            }),
        decreases 16 - k,
    {
        res[k] = if op == Op::BIT {
            (d[k] & !m[k]) | (n[k] & m[k])
        } else if op == Op::BIF {
            (d[k] & m[k]) | (n[k] & !m[k])
        } else {
            (n[k] & d[k]) | (m[k] & !d[k])
        };
        k = k + 1;
    }
    assert(res@ =~= Seq::new(16, |j: int| if op == Op::BIT {
        (d@[j] & !m@[j]) | (n@[j] & m@[j])
    } else if op == Op::BIF {
        (d@[j] & m@[j]) | (n@[j] & !m@[j])
    } else {
        (n@[j] & d@[j]) | (m@[j] & !d@[j])
    }));
    store_vec_result(ctx, ops, res);
}

/// EXT: the 16 bytes starting at byte `s % 16` of the concatenation of the second and
/// third operands' registers (zeros for a missing one), `s` being the last operand.
pub open spec fn ext_spec(c: CpuView, inst: Instruction) -> CpuView {
    let ops = inst.operands@;
    if ops.len() < 3 {
        c
    } else {
        let v1 = vec_operand_spec(ops, 1, c);
        let v2 = vec_operand_spec(ops, 2, c);
        let s = (operand_val_spec(if ops.len() >= 4 { ops[3].kind } else { ops[2].kind }, c) % 16) as int;
        put_vec_result(c, ops, Seq::new(16, |k: int| (v1 + v2)[s + k]))
    }
}

pub fn exec_ext(ctx: &mut CpuContext, inst: &Instruction)
    ensures
        final(ctx)@ == ext_spec(old(ctx)@, *inst),
{
    let ops = &inst.operands;
    if ops.len() < 3 {
        return;
    }
    let v1 = vec_operand(ops, 1, ctx);
    let v2 = vec_operand(ops, 2, ctx);
    let sop = if ops.len() >= 4 { &ops[3] } else { &ops[2] };
    let s = (get_operand_val(sop, ctx) % 16) as usize;
    let mut res = [0u8; 16];
    let mut k: usize = 0;
    while k < 16
        invariant
            0 <= k <= 16,
            s < 16,
            forall|j: int| 0 <= j < k ==> res@[j] == (v1@ + v2@)[s + j],
        decreases 16 - k,
    {
        res[k] = if s + k < 16 { v1[s + k] } else { v2[s + k - 16] };
        k = k + 1;
    }
    assert(res@ =~= Seq::new(16, |j: int| (v1@ + v2@)[s + j]));
    store_vec_result(ctx, ops, res);
}

/// The SIMD register indices of the first `n` operands, when each names one.
pub open spec fn vec_regs(ops: Seq<Operand>, n: int) -> bool {
    ops.len() >= n && forall|i: int| 0 <= i < n ==> get_op_reg_spec(#[trigger] ops[i].kind) is Some
        && v_reg_idx_spec(get_op_reg_spec(ops[i].kind)->0) is Some
}

/// The SIMD register index of operand `i`.
pub open spec fn vidx(ops: Seq<Operand>, i: int) -> int {
    v_reg_idx_spec(get_op_reg_spec(ops[i].kind)->0)->0 as int
}

fn vidx_of(op: &Operand) -> (r: Option<usize>)
    ensures
        r == match get_op_reg_spec(op.kind) { Some(reg) => v_reg_idx_spec(reg), None => None },
{
    match get_op_reg(op) {
        Some(reg) => v_reg_idx(reg),
        None => None,
    }
}

/// ZIP1/ZIP2 on three SIMD registers: words 0,1 (ZIP1) or 2,3 (ZIP2) of the two sources
/// interleaved, first source first.
pub open spec fn zip_spec(c: CpuView, inst: Instruction) -> CpuView {
    let ops = inst.operands@;
    if !vec_regs(ops, 3) {
        c
    } else {
        let vn = c.v[vidx(ops, 1)];
        let vm = c.v[vidx(ops, 2)];
        let b = if inst.op == Op::ZIP2 { 2int } else { 0int };
        with_v(c, vidx(ops, 0), Seq::new(16, |k: int| if (k / 4) % 2 == 0 {
            vn[(b + k / 8) * 4 + k % 4]
        } else {
            vm[(b + k / 8) * 4 + k % 4]
        }))
    }
}

pub fn exec_zip(ctx: &mut CpuContext, inst: &Instruction)
    ensures
        final(ctx)@ == zip_spec(old(ctx)@, *inst),
{
    let ops = &inst.operands;
    if ops.len() < 3 {
        return;
    }
    let (d, n, m) = match (vidx_of(&ops[0]), vidx_of(&ops[1]), vidx_of(&ops[2])) {
        (Some(d), Some(n), Some(m)) => (d, n, m),
        _ => {
            assert(!vec_regs(ops@, 3)) by {
                if vec_regs(ops@, 3) {
                    assert(get_op_reg_spec(ops@[0].kind) is Some);
                    assert(get_op_reg_spec(ops@[1].kind) is Some);
                    assert(get_op_reg_spec(ops@[2].kind) is Some);
                }
            }
            return;
        },
    };
    assert(vec_regs(ops@, 3)) by {
        assert forall|i: int| 0 <= i < 3 implies get_op_reg_spec(#[trigger] ops@[i].kind) is Some
            && v_reg_idx_spec(get_op_reg_spec(ops@[i].kind)->0) is Some by {}
    }
    let vn = ctx.v[n];
    let vm = ctx.v[m];
    let b: usize = if inst.op == Op::ZIP2 { 2 } else { 0 };
    let mut res = [0u8; 16];
    let mut k: usize = 0;
    while k < 16
        invariant
            0 <= k <= 16,
            b <= 2,
            forall|j: int| 0 <= j < k ==> res@[j] == (if (j / 4) % 2 == 0 {
                vn@[(b + j / 8) * 4 + j % 4]
            } else {
                vm@[(b + j / 8) * 4 + j % 4]
            }),
        decreases 16 - k,
    {
        let from = (b + k / 8) * 4 + k % 4;
        assert(from < 16) by (nonlinear_arith)
            requires
                b <= 2,
                k < 16,
                from == (b + k / 8) * 4 + k % 4,
        ;
        res[k] = if (k / 4) % 2 == 0 { vn[from] } else { vm[from] };
        k = k + 1;
    }
    let ghost bi = b as int;
    assert(res@ =~= Seq::new(16, |j: int| if (j / 4) % 2 == 0 {
        vn@[(bi + j / 8) * 4 + j % 4]
    } else {
        vm@[(bi + j / 8) * 4 + j % 4]
    }));
    ctx.v[d] = res;
    assert(ctx@.v =~= old(ctx)@.v.update(d as int, res@));
}

/// How XTN (a word narrowed to its low halfword), SXTL/UXTL (a halfword sign- or
/// zero-extended to a word) and USHR/SSHR (a word shifted right by `s`, arithmetically
/// for SSHR) convert one lane.
pub open spec fn nw_lane(op: Op, x: u64, s: u32) -> u64 {
    if op == Op::XTN || op == Op::XTN2 {
        x
    } else if op == Op::SSHR {
        ((x as u32 as i32) >> s) as u32 as u64
    } else if op == Op::USHR {
        ((x as u32) >> s) as u64
    } else if op == Op::SXTL || op == Op::SXTL2 {
        ((x as u16 as i16) as i32) as u32 as u64
    } else {
        x
    }
}

/// Byte width of the source lanes of XTN and the shifts (words) or of the widenings
/// (halfwords).
pub open spec fn nw_src_width(op: Op) -> int {
    if op == Op::SXTL || op == Op::SXTL2 || op == Op::UXTL || op == Op::UXTL2 { 2 } else { 4 }
}

/// XTN/XTN2, SXTL/UXTL (and their upper forms), USHR/SSHR: on two SIMD registers.
/// Each of the four source lanes converted by `nw_lane` goes to the same lane of the
/// result, a halfword for XTN and a word otherwise, zeros above; the shift amount is
/// the third operand modulo 32.
pub open spec fn narrow_widen_spec(c: CpuView, inst: Instruction) -> CpuView {
    let ops = inst.operands@;
    let op = inst.op;
    let shifts = op == Op::USHR || op == Op::SSHR;
    if !vec_regs(ops, 2) || (shifts && ops.len() < 3) {
        c
    } else {
        let vn = c.v[vidx(ops, 1)];
        let s: u32 = if shifts { (operand_val_spec(ops[2].kind, c) as u32) % 32 } else { 0 };
        let w = nw_src_width(op);
        let out_w = if op == Op::XTN || op == Op::XTN2 { 2int } else { 4int };
        with_v(c, vidx(ops, 0), put_lanes(zero16(), 0, out_w, Seq::new(4, |i: int| nw_lane(op, lane_at(vn, i * w, w), s))))
    }
}

fn nw_lane_of(op: Op, x: u64, s: u32) -> (r: u64)
    requires
        s < 32,
    ensures
        r == nw_lane(op, x, s),
{
    if op == Op::XTN || op == Op::XTN2 {
        x
    } else if op == Op::SSHR {
        ((x as u32 as i32) >> s) as u32 as u64
    } else if op == Op::USHR {
        ((x as u32) >> s) as u64
    } else if op == Op::SXTL || op == Op::SXTL2 {
        ((x as u16 as i16) as i32) as u32 as u64
    } else {
        x
    }
}

pub fn exec_narrow_widen(ctx: &mut CpuContext, inst: &Instruction)
    ensures
        final(ctx)@ == narrow_widen_spec(old(ctx)@, *inst),
{
    let ops = &inst.operands;
    let op = inst.op;
    let shifts = op == Op::USHR || op == Op::SSHR;
    if ops.len() < 2 || (shifts && ops.len() < 3) {
        return;
    }
    let (d, n) = match (vidx_of(&ops[0]), vidx_of(&ops[1])) {
        (Some(d), Some(n)) => (d, n),
        _ => {
            assert(!vec_regs(ops@, 2)) by {
                if vec_regs(ops@, 2) {
                    assert(get_op_reg_spec(ops@[0].kind) is Some);
                    assert(get_op_reg_spec(ops@[1].kind) is Some);
                }
            }
            return;
        },
    };
    assert(vec_regs(ops@, 2)) by {
        assert forall|i: int| 0 <= i < 2 implies get_op_reg_spec(#[trigger] ops@[i].kind) is Some
            && v_reg_idx_spec(get_op_reg_spec(ops@[i].kind)->0) is Some by {}
    }
    let vn = ctx.v[n];
    let s: u32 = if shifts { (get_operand_val(&ops[2], ctx) as u32) % 32 } else { 0 };
    let w: usize = if op == Op::SXTL || op == Op::SXTL2 || op == Op::UXTL || op == Op::UXTL2 { 2 } else { 4 };
    let ghost spec_lanes = Seq::new(4, |i: int| nw_lane(op, lane_at(vn@, i * (w as int), w as int), s));
    let mut out: Vec<u64> = Vec::new();
    let mut i: usize = 0;
    while i < 4
        invariant
            0 <= i <= 4,
            w == 2 || w == 4,
            s < 32,
            w == nw_src_width(op),
            spec_lanes == Seq::new(4, |i: int| nw_lane(op, lane_at(vn@, i * (w as int), w as int), s)),
            out@ == spec_lanes.subrange(0, i as int),
        decreases 4 - i,
    {
        assert(i * w + w <= 16) by (nonlinear_arith)
            requires
                i < 4,
                w == 2 || w == 4,
        ;
        let x = le_value_of(&vn, i * w, w);
        out.push(nw_lane_of(op, x, s));
        i = i + 1;
        assert(out@ =~= spec_lanes.subrange(0, i as int));
    }
    assert(out@ =~= spec_lanes);
    assert(d as int == vidx(ops@, 0) && n as int == vidx(ops@, 1));
    let mut res = zero_bytes();
    let out_w: usize = if op == Op::XTN || op == Op::XTN2 { 2 } else { 4 };
    put_lanes_exec(&mut res, 0, out_w, &out);
    ctx.v[d] = res;
    assert(ctx@.v =~= old(ctx)@.v.update(d as int, res@));
}

// Lane-wise shifts and compares ---------------------------------------------------------

/// The lane operation of USHL/SHL/SSHL and the compares.
pub open spec fn lane_kind(op: Op, from_vec: bool) -> LaneKind {
    match op {
        Op::CMEQ => LaneKind::CmEq,
        Op::CMHI => LaneKind::CmHi,
        Op::CMHS => LaneKind::CmHs,
        Op::CMGT => LaneKind::CmGt,
        Op::CMGE => LaneKind::CmGe,
        Op::CMTST => LaneKind::CmTst,
        _ => LaneKind::Shl { from_vec },
    }
}

/// The SIMD register operand `i` names, if it names one.
pub open spec fn vec_operand_opt(ops: Seq<Operand>, i: int, c: CpuView) -> Option<Seq<u8>> {
    if 0 <= i < ops.len() && get_op_reg_spec(ops[i].kind) is Some && v_reg_idx_spec(get_op_reg_spec(ops[i].kind)->0) is Some {
        Some(c.v[v_reg_idx_spec(get_op_reg_spec(ops[i].kind)->0)->0 as int])
    } else {
        None
    }
}

/// USHL/SHL/SSHL and CMEQ/CMHI/CMHS/CMGT/CMGE/CMTST with a SIMD destination: lane-wise
/// (element size from the destination's arrangement) on the second operand's register
/// (zeros if none) and the third operand's register, or, when the third operand names
/// none, its value as an immediate (zero without a third operand).
pub open spec fn lane_op_spec(c: CpuView, inst: Instruction) -> CpuView {
    let ops = inst.operands@;
    if ops.len() < 2 || get_op_reg_spec(ops[0].kind) is None || v_reg_idx_spec(get_op_reg_spec(ops[0].kind)->0) is None {
        c
    } else {
        let esz = vec_elem_size_spec(ops[0].text@) as int;
        let v1 = vec_operand_spec(ops, 1, c);
        let v2 = vec_operand_opt(ops, 2, c);
        let imm = if v2 is None && ops.len() >= 3 { operand_val_spec(ops[2].kind, c) } else { 0 };
        with_v(c, v_reg_idx_spec(get_op_reg_spec(ops[0].kind)->0)->0 as int,
            lanewise_spec(lane_kind(inst.op, v2 is Some), v1, v2, imm, esz))
    }
}

pub fn exec_lane_op(ctx: &mut CpuContext, inst: &Instruction)
    ensures
        final(ctx)@ == lane_op_spec(old(ctx)@, *inst),
{
    let ops = &inst.operands;
    if ops.len() < 2 {
        return;
    }
    let idx0 = match vidx_of(&ops[0]) {
        Some(i) => i,
        None => return,
    };
    let esz = get_vec_elem_size(&ops[0]);
    let v1 = vec_operand(ops, 1, ctx);
    let v2 = if ops.len() >= 3 { vidx_of(&ops[2]) } else { None };
    let imm = if v2.is_none() && ops.len() >= 3 { get_operand_val(&ops[2], ctx) } else { 0 };
    let from_vec = v2.is_some();
    let kind = match inst.op {
        Op::CMEQ => LaneKind::CmEq,
        Op::CMHI => LaneKind::CmHi,
        Op::CMHS => LaneKind::CmHs,
        Op::CMGT => LaneKind::CmGt,
        Op::CMGE => LaneKind::CmGe,
        Op::CMTST => LaneKind::CmTst,
        _ => LaneKind::Shl { from_vec },
    };
    let res = match v2 {
        Some(i2) => {
            let b = ctx.v[i2];
            lanewise(kind, &v1, Some(&b), imm, esz)
        },
        None => lanewise(kind, &v1, None, imm, esz),
    };
    ctx.v[idx0] = res;
    assert(ctx@.v =~= old(ctx)@.v.update(idx0 as int, res@));
}

// Pairwise operations ----------------------------------------------------------------------

/// The wrapping sums of `count` adjacent lane pairs of `v`.
pub open spec fn pair_sums(v: Seq<u8>, count: int, esz: int) -> Seq<u64> {
    Seq::new(count as nat, |i: int| crate::interp::wadd(lane_at(v, i * (2 * esz), esz), lane_at(v, i * (2 * esz) + esz, esz)))
}

/// The larger (`is_max`) or smaller of two lanes, compared as signed values of `esz`
/// bytes when `signed`.
pub open spec fn mm(is_max: bool, signed: bool, a: u64, b: u64, esz: int) -> u64 {
    let b_gt_a = if signed { lane_gt_signed(b, a, esz) } else { b > a };
    let a_gt_b = if signed { lane_gt_signed(a, b, esz) } else { a > b };
    if is_max { if b_gt_a { b } else { a } } else { if a_gt_b { b } else { a } }
}

/// The larger or smaller of each of `count` adjacent lane pairs of `v`.
pub open spec fn pair_mm(is_max: bool, signed: bool, v: Seq<u8>, count: int, esz: int) -> Seq<u64> {
    Seq::new(count as nat, |i: int| mm(is_max, signed, lane_at(v, i * (2 * esz), esz), lane_at(v, i * (2 * esz) + esz, esz), esz))
}

/// The pairwise result of ADDP and UMINP/UMAXP/SMINP/SMAXP over the sources `v1`, `v2`.
/// ADDP: the pair sums of `v1` from byte 0 (`8 / esz` pairs, 4 bytes' worth for a
/// 64-bit arrangement, one pair for doublewords), then, for a 128-bit arrangement, those
/// of `v2` from byte 4 (bytes, halfwords: 4 bytes' worth) or 8 (one pair). The min/max
/// forms: those of `v1` from byte 0 (`8 / esz` pairs, half for a 64-bit arrangement) and,
/// for a 128-bit arrangement, `8 / esz` of `v2` from byte 8; nothing for doublewords.
pub open spec fn pairwise_result(op: Op, v1: Seq<u8>, v2: Seq<u8>, esz: int, is64: bool) -> Seq<u8> {
    if op == Op::ADDP {
        let c1: int = if esz == 8 { 1 } else { (if is64 { 4int } else { 8int }) / esz };
        let first = put_lanes(zero16(), 0, esz, pair_sums(v1, c1, esz));
        if is64 {
            first
        } else if esz <= 2 {
            put_lanes(first, 4, esz, pair_sums(v2, 4int / esz, esz))
        } else {
            put_lanes(first, 8, esz, pair_sums(v2, 1, esz))
        }
    } else {
        let is_max = op == Op::UMAXP || op == Op::SMAXP;
        let signed = op == Op::SMAXP || op == Op::SMINP;
        let c1: int = if esz == 8 { 0 } else { (if is64 { 4int } else { 8int }) / esz };
        let first = put_lanes(zero16(), 0, esz, pair_mm(is_max, signed, v1, c1, esz));
        if is64 || esz == 8 {
            first
        } else {
            put_lanes(first, 8, esz, pair_mm(is_max, signed, v2, 8int / esz, esz))
        }
    }
}

/// ADDP and UMINP/UMAXP/SMINP/SMAXP: the pairwise result (arrangement from the first
/// operand's text) on the second operand's register (zeros if none) and the third's
/// (the second's if none), written as a vector result.
pub open spec fn pairwise_spec(c: CpuView, inst: Instruction) -> CpuView {
    let ops = inst.operands@;
    if ops.len() < 2 {
        c
    } else {
        let v1 = vec_operand_spec(ops, 1, c);
        let v2 = if ops.len() >= 3 { vec_operand_or(ops, 2, c, v1) } else { v1 };
        let esz = vec_elem_size_spec(ops[0].text@) as int;
        put_vec_result(c, ops, pairwise_result(inst.op, v1, v2, esz, is_64bit_vector_spec(ops[0].text@)))
    }
}

fn lane_gt_signed_of(a: u64, b: u64, esz: usize) -> (r: bool)
    ensures
        r == lane_gt_signed(a, b, esz as int),
{
    if esz == 1 {
        (a as i8) > (b as i8)
    } else if esz == 2 {
        (a as i16) > (b as i16)
    } else if esz == 4 {
        (a as i32) > (b as i32)
    } else {
        (a as i64) > (b as i64)
    }
}

fn mm_of(is_max: bool, signed: bool, a: u64, b: u64, esz: usize) -> (r: u64)
    ensures
        r == mm(is_max, signed, a, b, esz as int),
{
    let b_gt_a = if signed { lane_gt_signed_of(b, a, esz) } else { b > a };
    let a_gt_b = if signed { lane_gt_signed_of(a, b, esz) } else { a > b };
    if is_max { if b_gt_a { b } else { a } } else { if a_gt_b { b } else { a } }
}

/// Computes `count` pair values of `v` (sums, or min/max with `is_max`, `signed`).
fn pair_values(v: &[u8; 16], count: usize, esz: usize, sum: bool, is_max: bool, signed: bool) -> (r: Vec<u64>)
    requires
        esz_ok(esz as int),
        count * (2 * esz) <= 16,
    ensures
        r@ == (if sum { pair_sums(v@, count as int, esz as int) } else { pair_mm(is_max, signed, v@, count as int, esz as int) }),
{
    let ghost target = if sum { pair_sums(v@, count as int, esz as int) } else { pair_mm(is_max, signed, v@, count as int, esz as int) };
    let mut r: Vec<u64> = Vec::new();
    let mut i: usize = 0;
    while i < count
        invariant
            esz_ok(esz as int),
            count * (2 * esz) <= 16,
            0 <= i <= count,
            target == (if sum { pair_sums(v@, count as int, esz as int) } else { pair_mm(is_max, signed, v@, count as int, esz as int) }),
            r@ == target.subrange(0, i as int),
        decreases count - i,
    {
        assert(i * (2 * esz) + 2 * esz <= 16) by (nonlinear_arith)
            requires
                i < count,
                count * (2 * esz) <= 16,
        ;
        let start = i * (2 * esz);
        let a = le_value_of(v, start, esz);
        let b = le_value_of(v, start + esz, esz);
        let x = if sum { a.wrapping_add(b) } else { mm_of(is_max, signed, a, b, esz) };
        r.push(x);
        i = i + 1;
        assert(r@ =~= target.subrange(0, i as int));
    }
    assert(target.subrange(0, count as int) =~= target);
    r
}

pub fn exec_pairwise(ctx: &mut CpuContext, inst: &Instruction)
    ensures
        final(ctx)@ == pairwise_spec(old(ctx)@, *inst),
{
    let ops = &inst.operands;
    if ops.len() < 2 {
        return;
    }
    let op = inst.op;
    let v1 = vec_operand(ops, 1, ctx);
    let v2 = if ops.len() >= 3 { vec_operand_or_exec(ops, 2, ctx, v1) } else { v1 };
    let esz = get_vec_elem_size(&ops[0]);
    let is64 = is_64bit_vector(&ops[0]);
    let mut res = zero_bytes();
    if op == Op::ADDP {
        let c1: usize = if esz == 8 { 1 } else { (if is64 { 4 } else { 8 }) / esz };
        let p1 = pair_values(&v1, c1, esz, true, false, false);
        put_lanes_exec(&mut res, 0, esz, &p1);
        if !is64 {
            if esz <= 2 {
                let p2 = pair_values(&v2, 4 / esz, esz, true, false, false);
                put_lanes_exec(&mut res, 4, esz, &p2);
            } else {
                let p2 = pair_values(&v2, 1, esz, true, false, false);
                put_lanes_exec(&mut res, 8, esz, &p2);
            }
        }
    } else {
        let is_max = op == Op::UMAXP || op == Op::SMAXP;
        let signed = op == Op::SMAXP || op == Op::SMINP;
        let c1: usize = if esz == 1 {
            if is64 { 4 } else { 8 }
        } else if esz == 2 {
            if is64 { 2 } else { 4 }
        } else if esz == 4 {
            if is64 { 1 } else { 2 }
        } else {
            0
        };
        assert(c1 == if esz == 8 { 0usize } else { (if is64 { 4usize } else { 8usize }) / esz });
        assert(c1 * (2 * esz) <= 16);
        let p1 = pair_values(&v1, c1, esz, false, is_max, signed);
        put_lanes_exec(&mut res, 0, esz, &p1);
        if !(is64 || esz == 8) {
            let p2 = pair_values(&v2, 8 / esz, esz, false, is_max, signed);
            put_lanes_exec(&mut res, 8, esz, &p2);
        }
    }
    store_vec_result(ctx, ops, res);
}

// Narrowing shift ------------------------------------------------------------------------------

/// SHRN/SHRN2: each lane of the second operand's register (arrangement from its text:
/// words, doublewords, otherwise halfwords) shifted right by the third operand modulo 64
/// (the shift wrapping modulo the lane width) and narrowed to half its width; the lanes
/// go to the low half of a zeroed result (SHRN) or the high half of the destination's
/// register (SHRN2), written as a vector result.
pub open spec fn shrn_spec(c: CpuView, inst: Instruction) -> CpuView {
    let ops = inst.operands@;
    if ops.len() < 3 {
        c
    } else {
        let v1 = vec_operand_spec(ops, 1, c);
        let sh = (operand_val_spec(ops[2].kind, c) as u32) % 64;
        let high = inst.op == Op::SHRN2;
        let base = if high { vec_operand_spec(ops, 0, c) } else { zero16() };
        let start: int = if high { 8 } else { 0 };
        let esz = vec_elem_size_spec(ops[1].text@);
        let res = if esz == 4 {
            put_lanes(base, start, 2, Seq::new(4, |i: int| (((lane_at(v1, i * 4, 4) as u32) >> (sh % 32)) as u64) & 0xffff))
        } else if esz == 8 {
            put_lanes(base, start, 4, Seq::new(2, |i: int| (lane_at(v1, i * 8, 8) >> sh) & 0xffff_ffff))
        } else {
            put_lanes(base, start, 1, Seq::new(8, |i: int| (((lane_at(v1, i * 2, 2) as u16) >> (sh % 16)) as u64) & 0xff))
        };
        put_vec_result(c, ops, res)
    }
}

pub fn exec_shrn(ctx: &mut CpuContext, inst: &Instruction)
    ensures
        final(ctx)@ == shrn_spec(old(ctx)@, *inst),
{
    let ops = &inst.operands;
    if ops.len() < 3 {
        return;
    }
    let v1 = vec_operand(ops, 1, ctx);
    let sh = (get_operand_val(&ops[2], ctx) as u32) % 64;
    let high = inst.op == Op::SHRN2;
    let mut res = if high { vec_operand(ops, 0, ctx) } else { zero_bytes() };
    let start: usize = if high { 8 } else { 0 };
    let esz = get_vec_elem_size(&ops[1]);
    let (n, w): (usize, usize) = if esz == 4 { (4, 4) } else if esz == 8 { (2, 8) } else { (8, 2) };
    let ghost target = if esz == 4 {
        Seq::new(4, |i: int| (((lane_at(v1@, i * 4, 4) as u32) >> (sh % 32)) as u64) & 0xffff)
    } else if esz == 8 {
        Seq::new(2, |i: int| (lane_at(v1@, i * 8, 8) >> sh) & 0xffff_ffff)
    } else {
        Seq::new(8, |i: int| (((lane_at(v1@, i * 2, 2) as u16) >> (sh % 16)) as u64) & 0xff)
    };
    let mut vals: Vec<u64> = Vec::new();
    let mut i: usize = 0;
    while i < n
        invariant
            (n == 4 && w == 4 && esz == 4) || (n == 2 && w == 8 && esz == 8) || (n == 8 && w == 2 && esz != 4 && esz != 8),
            sh < 64,
            0 <= i <= n,
            target.len() == n,
            target == (if esz == 4 {
                Seq::new(4, |i: int| (((lane_at(v1@, i * 4, 4) as u32) >> (sh % 32)) as u64) & 0xffff)
            } else if esz == 8 {
                Seq::new(2, |i: int| (lane_at(v1@, i * 8, 8) >> sh) & 0xffff_ffff)
            } else {
                Seq::new(8, |i: int| (((lane_at(v1@, i * 2, 2) as u16) >> (sh % 16)) as u64) & 0xff)
            }),
            vals@ == target.subrange(0, i as int),
        decreases n - i,
    {
        assert(i * w + w <= 16) by (nonlinear_arith)
            requires
                i < n,
                n * w == 16,
        ;
        let x = le_value_of(&v1, i * w, w);
        let y = if esz == 4 {
            (((x as u32) >> (sh % 32)) as u64) & 0xffff
        } else if esz == 8 {
            (x >> sh) & 0xffff_ffff
        } else {
            (((x as u16) >> (sh % 16)) as u64) & 0xff
        };
        vals.push(y);
        i = i + 1;
        assert(vals@ =~= target.subrange(0, i as int));
    }
    assert(vals@ =~= target);
    put_lanes_exec(&mut res, start, w / 2, &vals);
    store_vec_result(ctx, ops, res);
}

// Across-lane reductions ------------------------------------------------------------------

/// A lane of `esz` bytes sign-extended to 64 bits.
pub open spec fn sext_lane(x: u64, esz: int) -> u64 {
    if esz == 1 {
        ((x as u8 as i8) as i64) as u64
    } else if esz == 2 {
        ((x as u16 as i16) as i64) as u64
    } else if esz == 4 {
        ((x as u32 as i32) as i64) as u64
    } else {
        x
    }
}

/// The wrapping sum of the first `n` lanes of `v` (sign-extended when `signed`).
pub open spec fn lane_sum(v: Seq<u8>, n: int, esz: int, signed: bool) -> u64
    decreases n,
{
    if n <= 0 {
        0
    } else {
        let x = lane_at(v, (n - 1) * esz, esz);
        crate::interp::wadd(lane_sum(v, n - 1, esz, signed), if signed { sext_lane(x, esz) } else { x })
    }
}

/// The largest (`is_max`) or smallest of the first `n` lanes of `v` (at least one).
pub open spec fn lane_best(is_max: bool, signed: bool, v: Seq<u8>, n: int, esz: int) -> u64
    decreases n,
{
    if n <= 1 {
        lane_at(v, 0, esz)
    } else {
        mm(is_max, signed, lane_best(is_max, signed, v, n - 1, esz), lane_at(v, (n - 1) * esz, esz), esz)
    }
}

/// The reduction result of ADDV/UADDLV/SADDLV/UMAXV/UMINV/SMAXV/SMINV over `count`
/// lanes of `v`: the sums as 8 bytes (nothing for UADDLV and SADDLV on doublewords),
/// the extremes as one lane; zeros elsewhere.
pub open spec fn across_result(op: Op, v: Seq<u8>, count: int, esz: int) -> Seq<u8> {
    if op == Op::ADDV || op == Op::UADDLV || op == Op::SADDLV {
        if esz == 8 && op != Op::ADDV {
            zero16()
        } else {
            put_lanes(zero16(), 0, 8, seq![lane_sum(v, count, esz, op == Op::SADDLV)])
        }
    } else {
        put_lanes(zero16(), 0, esz, seq![lane_best(op == Op::UMAXV || op == Op::SMAXV, op == Op::SMAXV || op == Op::SMINV, v, count, esz)])
    }
}

/// The across-lane reductions: both operands name registers; the SIMD register of the
/// first (V0 if it names none) takes the reduction of the lanes of that of the second (V0
/// if none), arrangement from the second's text: all lanes of its 8 or 16 bytes
/// (two for doublewords).
pub open spec fn across_spec(c: CpuView, inst: Instruction) -> CpuView {
    let ops = inst.operands@;
    if ops.len() < 2 || get_op_reg_spec(ops[0].kind) is None || get_op_reg_spec(ops[1].kind) is None {
        c
    } else {
        let i1 = match v_reg_idx_spec(get_op_reg_spec(ops[0].kind)->0) { Some(i) => i as int, None => 0 };
        let i2 = match v_reg_idx_spec(get_op_reg_spec(ops[1].kind)->0) { Some(i) => i as int, None => 0 };
        let esz = vec_elem_size_spec(ops[1].text@) as int;
        let count = if esz == 8 { 2 } else { (if is_64bit_vector_spec(ops[1].text@) { 8int } else { 16int }) / esz };
        with_v(c, i1, across_result(inst.op, c.v[i2], count, esz))
    }
}

fn sext_lane_of(x: u64, esz: usize) -> (r: u64)
    ensures
        r == sext_lane(x, esz as int),
{
    if esz == 1 {
        ((x as u8 as i8) as i64) as u64
    } else if esz == 2 {
        ((x as u16 as i16) as i64) as u64
    } else if esz == 4 {
        ((x as u32 as i32) as i64) as u64
    } else {
        x
    }
}

pub fn exec_across(ctx: &mut CpuContext, inst: &Instruction)
    ensures
        final(ctx)@ == across_spec(old(ctx)@, *inst),
{
    let ops = &inst.operands;
    if ops.len() < 2 {
        return;
    }
    let (r1, r2) = match (get_op_reg(&ops[0]), get_op_reg(&ops[1])) {
        (Some(a), Some(b)) => (a, b),
        _ => return,
    };
    let i1 = match v_reg_idx(r1) { Some(i) => i, None => 0 };
    let i2 = match v_reg_idx(r2) { Some(i) => i, None => 0 };
    let esz = get_vec_elem_size(&ops[1]);
    let count: usize = if esz == 8 { 2 } else { (if is_64bit_vector(&ops[1]) { 8 } else { 16 }) / esz };
    assert(count * esz <= 16 && count >= 2) by {
        if esz == 1 {} else if esz == 2 {} else if esz == 4 {} else {}
    }
    let v = ctx.v[i2];
    let op = inst.op;
    let mut res = zero_bytes();
    if op == Op::ADDV || op == Op::UADDLV || op == Op::SADDLV {
        if !(esz == 8 && op != Op::ADDV) {
            let signed = op == Op::SADDLV;
            let mut acc: u64 = 0;
            let mut i: usize = 0;
            while i < count
                invariant
                    count * esz <= 16,
                    esz == 1 || esz == 2 || esz == 4 || esz == 8,
                    0 <= i <= count,
                    acc == lane_sum(v@, i as int, esz as int, signed),
                decreases count - i,
            {
                assert(i * esz + esz <= 16) by (nonlinear_arith)
                    requires
                        i < count,
                        count * esz <= 16,
                ;
                let x = le_value_of(&v, i * esz, esz);
                let y = if signed { sext_lane_of(x, esz) } else { x };
                acc = acc.wrapping_add(y);
                i = i + 1;
            }
            let mut vals: Vec<u64> = Vec::new();
            vals.push(acc);
            assert(vals@ =~= seq![acc]);
            put_lanes_exec(&mut res, 0, 8, &vals);
        }
    } else {
        let is_max = op == Op::UMAXV || op == Op::SMAXV;
        let signed = op == Op::SMAXV || op == Op::SMINV;
        let mut best = le_value_of(&v, 0, esz);
        let mut i: usize = 1;
        while i < count
            invariant
                count * esz <= 16,
                esz == 1 || esz == 2 || esz == 4 || esz == 8,
                1 <= i <= count,
                best == lane_best(is_max, signed, v@, i as int, esz as int),
            decreases count - i,
        {
            assert(i * esz + esz <= 16) by (nonlinear_arith)
                requires
                    i < count,
                    count * esz <= 16,
            ;
            let x = le_value_of(&v, i * esz, esz);
            best = mm_of(is_max, signed, best, x, esz);
            i = i + 1;
        }
        let mut vals: Vec<u64> = Vec::new();
        vals.push(best);
        assert(vals@ =~= seq![best]);
        put_lanes_exec(&mut res, 0, esz, &vals);
    }
    ctx.v[i1] = res;
    assert(ctx@.v =~= old(ctx)@.v.update(i1 as int, res@));
}

// Moves of one element to a general register --------------------------------------------------

/// UMOV/SMOV: with a SIMD source, the element whose index the source text gives after
/// `index:` (modulo the element count): a word for a W destination, else a doubleword;
/// any other source gives its value.
pub open spec fn elem_move_spec(c: CpuView, inst: Instruction) -> CpuView {
    let ops = inst.operands@;
    if ops.len() < 2 || get_op_reg_spec(ops[0].kind) is None {
        c
    } else {
        let rd = get_op_reg_spec(ops[0].kind)->0;
        let val = match vec_operand_opt(ops, 1, c) {
            Some(v) => {
                let ix = elem_index(ops[1].text@) as int;
                if is_w_reg_spec(rd) { lane_at(v, (ix % 4) * 4, 4) } else { lane_at(v, (ix % 2) * 8, 8) }
            },
            None => operand_val_spec(ops[1].kind, c),
        };
        set_reg_val_spec(rd, val, c)
    }
}

pub fn exec_elem_move(ctx: &mut CpuContext, inst: &Instruction)
    ensures
        final(ctx)@ == elem_move_spec(old(ctx)@, *inst),
{
    let ops = &inst.operands;
    if ops.len() < 2 {
        return;
    }
    let rd = match get_op_reg(&ops[0]) {
        Some(r) => r,
        None => return,
    };
    let val = match vidx_of(&ops[1]) {
        Some(vi) => {
            let ix = element_index(ops[1].text.as_slice());
            if is_w_reg(rd) {
                le_value_of(&ctx.v[vi], (ix % 4) * 4, 4)
            } else {
                le_value_of(&ctx.v[vi], (ix % 2) * 8, 8)
            }
        },
        None => get_operand_val(&ops[1], ctx),
    };
    set_reg_val(rd, val, ctx);
}

} // verus!
