//! Bit-level data processing: logic, byte and bit reversal, counting, bitfields,
//! shifts and rotations.

use vstd::prelude::*;
use crate::cpu::{CpuContext, CpuView};
use crate::decoder::{Instruction, Op, Operand, OperandKind, Reg};
use crate::interp::{
    get_op_reg, get_op_reg_spec, get_operand_val, get_reg_val, get_reg_val_spec, is_w_reg, is_w_reg_spec, le_bytes,
    le_value, op_is_w, operand_is_w, operand_val_spec, rotate_right32, rotate_right64, rotr32, rotr64, set_reg_val,
    set_reg_val_spec, v_reg_idx, v_reg_idx_spec, with_flags,
};
use crate::interp::alu::{plain_reg, plain_reg_of, vec_operand, vec_operand_spec, with_v};
use crate::interp::memops::le_value_vec;

verus! {

// Bit and byte primitives ------------------------------------------------------

/// `v` with its `n` low bytes in reverse order (`swap_bytes` on an `n`-byte integer).
pub open spec fn byte_swap(v: u64, n: int) -> u64 {
    le_value(le_bytes(v, n).reverse(), n)
}

/// The first `k` bits of the reversal of the `w` low bits of `v`: bit `k - 1` of the
/// result is bit `w - k` of `v`.
pub open spec fn rbit_acc(v: u64, w: nat, k: nat) -> u64
    decreases k,
{
    if k == 0 || k > w {
        0
    } else {
        rbit_acc(v, w, (k - 1) as nat) | (((v >> ((w - k) as u64)) & 1) << ((k - 1) as u64))
    }
}

/// The `w` low bits of `v` in reverse order (`reverse_bits` on a `w`-bit integer).
pub open spec fn rbit(v: u64, w: nat) -> u64 {
    rbit_acc(v, w, w)
}

/// How many of the `k` low bits of `v` are set.
pub open spec fn ones(v: u64, k: nat) -> u64
    decreases k,
{
    if k == 0 {
        0
    } else {
        (ones(v, (k - 1) as nat) + ((v >> ((k - 1) as u64)) & 1)) as u64
    }
}

/// `((1 << width) - 1)`, all ones from 64 bits on.
pub open spec fn low_mask(width: u64) -> u64 {
    if width >= 64 {
        !0u64
    } else {
        ((1u64 << width) - 1) as u64
    }
}

pub fn swap_bytes_n(v: u64, n: usize) -> (r: u64)
    requires
        n <= 8,
    ensures
        r == byte_swap(v, n as int),
{
    let mut b: Vec<u8> = Vec::new();
    let mut k: usize = 0;
    while k < n
        invariant
            n <= 8,
            0 <= k <= n,
            b@ == le_bytes(v, n as int).reverse().subrange(0, k as int),
        decreases n - k,
    {
        b.push(((v >> ((8 * (n - 1 - k)) as u64)) & 0xff) as u8);
        k = k + 1;
        assert(b@ =~= le_bytes(v, n as int).reverse().subrange(0, k as int));
    }
    assert(b@ =~= le_bytes(v, n as int).reverse());
    le_value_vec(&b, n)
}

pub fn reverse_bits_n(v: u64, w: u64) -> (r: u64)
    requires
        w <= 64,
    ensures
        r == rbit(v, w as nat),
{
    let mut r: u64 = 0;
    let mut k: u64 = 0;
    while k < w
        invariant
            w <= 64,
            0 <= k <= w,
            r == rbit_acc(v, w as nat, k as nat),
        decreases w - k,
    {
        r = r | (((v >> (w - 1 - k)) & 1) << k);
        k = k + 1;
    }
    r
}

pub fn count_ones_n(v: u64, w: u64) -> (r: u64)
    requires
        w <= 64,
    ensures
        r == ones(v, w as nat),
        r <= w,
{
    let mut r: u64 = 0;
    let mut k: u64 = 0;
    while k < w
        invariant
            w <= 64,
            0 <= k <= w,
            r == ones(v, k as nat),
            r <= k,
        decreases w - k,
    {
        let bit = (v >> k) & 1;
        assert(bit <= 1) by (bit_vector)
            requires
                bit == (v >> k) & 1,
        ;
        r = r + bit;
        k = k + 1;
    }
    r
}

pub fn low_mask_of(width: u64) -> (r: u64)
    ensures
        r == low_mask(width),
{
    if width >= 64 {
        !0u64
    } else {
        assert(1u64 << width >= 1) by (bit_vector)
            requires
                width < 64,
        ;
        (1u64 << width) - 1
    }
}

// AND, ORR, ORN, EOR, EON, TST, BIC --------------------------------------------

/// The byte-wise operation of a vector logic instruction.
pub open spec fn logic_byte(op: Op, a: u8, b: u8) -> u8 {
    match op {
        Op::ORR => a | b,
        Op::ORN => a | !b,
        Op::EOR => a ^ b,
        Op::EON => a ^ !b,
        _ => a & b,
    }
}

/// The operation of a scalar logic instruction.
pub open spec fn logic_word(op: Op, a: u64, b: u64) -> u64 {
    match op {
        Op::ORR => a | b,
        Op::ORN => a | !b,
        Op::EOR => a ^ b,
        Op::EON => a ^ !b,
        _ => a & b,
    }
}

/// NZCV after a logical result: N and Z of the result (of its low 32 bits when
/// `is_32`), C and V clear.
pub open spec fn logic_flags(res: u64, is_32: bool) -> (bool, bool, bool, bool) {
    if is_32 {
        (((res as u32) as i32) < 0, (res as u32) == 0, false, false)
    } else {
        ((res as i64) < 0, res == 0, false, false)
    }
}

/// AND/ANDS/TST, ORR/ORN, EOR/EON. With a SIMD destination, byte-wise on the registers
/// of the second and third operands (zeros for a missing one). Otherwise on the two
/// source operands (the last two of three, both of two; TST always its two); TST writes
/// no register; ANDS and TST set N and Z of the result (32-bit when the first source is a
/// W register) and clear C and V.
pub open spec fn logic_spec(c: CpuView, inst: Instruction) -> CpuView {
    let ops = inst.operands@;
    let op = inst.op;
    if ops.len() < 2 || get_op_reg_spec(ops[0].kind) is None {
        c
    } else {
        let reg = get_op_reg_spec(ops[0].kind)->0;
        if v_reg_idx_spec(reg) is Some {
            let v1 = vec_operand_spec(ops, 1, c);
            let v2 = if ops.len() >= 3 { vec_operand_spec(ops, 2, c) } else { Seq::new(16, |k: int| 0u8) };
            with_v(c, v_reg_idx_spec(reg)->0 as int, Seq::new(16, |k: int| logic_byte(op, v1[k], v2[k])))
        } else {
            let o1 = if op == Op::TST { ops[0] } else if ops.len() >= 3 { ops[1] } else { ops[0] };
            let o2 = if op == Op::TST { ops[1] } else if ops.len() >= 3 { ops[2] } else { ops[1] };
            let res = logic_word(op, operand_val_spec(o1.kind, c), operand_val_spec(o2.kind, c));
            let c2 = if op == Op::TST { c } else { set_reg_val_spec(reg, res, c) };
            if op == Op::ANDS || op == Op::TST {
                with_flags(c2, logic_flags(res, op_is_w(o1.kind)))
            } else {
                c2
            }
        }
    }
}

fn logic_flags_of(res: u64, is_32: bool) -> (r: (bool, bool, bool, bool))
    ensures
        r == logic_flags(res, is_32),
{
    if is_32 {
        (((res as u32) as i32) < 0, (res as u32) == 0, false, false)
    } else {
        ((res as i64) < 0, res == 0, false, false)
    }
}

pub fn exec_logic(ctx: &mut CpuContext, inst: &Instruction)
    ensures
        final(ctx)@ == logic_spec(old(ctx)@, *inst),
{
    let ops = &inst.operands;
    let op = inst.op;
    if ops.len() < 2 {
        return;
    }
    let reg = match get_op_reg(&ops[0]) {
        Some(r) => r,
        None => return,
    };
    if let Some(idx) = v_reg_idx(reg) {
        let v1 = vec_operand(ops, 1, ctx);
        let v2 = if ops.len() >= 3 { vec_operand(ops, 2, ctx) } else { [0u8; 16] };
        let ghost z2 = if ops.len() >= 3 { vec_operand_spec(ops@, 2, ctx@) } else { Seq::new(16, |k: int| 0u8) };
        assert(v2@ =~= z2);
        let mut res = [0u8; 16];
        let mut i: usize = 0;
        while i < 16
            invariant
                0 <= i <= 16,
                forall|k: int| 0 <= k < i ==> res@[k] == logic_byte(op, v1@[k], v2@[k]),
            decreases 16 - i,
        {
            res[i] = match op {
                Op::ORR => v1[i] | v2[i],
                Op::ORN => v1[i] | !v2[i],
                Op::EOR => v1[i] ^ v2[i],
                Op::EON => v1[i] ^ !v2[i],
                _ => v1[i] & v2[i],
            };
            i = i + 1;
        }
        assert(res@ =~= Seq::new(16, |k: int| logic_byte(op, v1@[k], v2@[k])));
        ctx.v[idx] = res;
        assert(ctx@.v =~= old(ctx)@.v.update(idx as int, res@));
    } else {
        let (o1, o2) = if op == Op::TST {
            (&ops[0], &ops[1])
        } else if ops.len() >= 3 {
            (&ops[1], &ops[2])
        } else {
            (&ops[0], &ops[1])
        };
        let a = get_operand_val(o1, ctx);
        let b = get_operand_val(o2, ctx);
        let res = match op {
            Op::ORR => a | b,
            Op::ORN => a | !b,
            Op::EOR => a ^ b,
            Op::EON => a ^ !b,
            _ => a & b,
        };
        if op != Op::TST {
            set_reg_val(reg, res, ctx);
        }
        if op == Op::ANDS || op == Op::TST {
            let (n, z, c, v) = logic_flags_of(res, operand_is_w(o1));
            ctx.set_nzcv(n, z, c, v);
        }
    }
}

/// BIC/BICS on a plain destination: the first source and-not the second; BICS sets N
/// and Z of the result (32-bit for a W destination) and clears C and V.
pub open spec fn bic_spec(c: CpuView, inst: Instruction) -> CpuView {
    let ops = inst.operands@;
    if ops.len() < 3 || plain_reg(ops[0].kind) is None {
        c
    } else {
        let reg = plain_reg(ops[0].kind)->0;
        let res = operand_val_spec(ops[1].kind, c) & !operand_val_spec(ops[2].kind, c);
        let c2 = set_reg_val_spec(reg, res, c);
        if inst.op == Op::BICS {
            with_flags(c2, logic_flags(res, is_w_reg_spec(reg)))
        } else {
            c2
        }
    }
}

pub fn exec_bic(ctx: &mut CpuContext, inst: &Instruction)
    ensures
        final(ctx)@ == bic_spec(old(ctx)@, *inst),
{
    let ops = &inst.operands;
    if ops.len() < 3 {
        return;
    }
    if let Some(reg) = plain_reg_of(&ops[0]) {
        let res = get_operand_val(&ops[1], ctx) & !get_operand_val(&ops[2], ctx);
        set_reg_val(reg, res, ctx);
        if inst.op == Op::BICS {
            let (n, z, c, v) = logic_flags_of(res, is_w_reg(reg));
            ctx.set_nzcv(n, z, c, v);
        }
    }
}

// REV, REV16, REV32, REV64, RBIT, CLZ, CNT -------------------------------------

/// The SIMD register a plain register operand names, or zeros.
pub open spec fn plain_vec_operand(ops: Seq<Operand>, i: int, c: CpuView) -> Seq<u8> {
    if 0 <= i < ops.len() && plain_reg(ops[i].kind) is Some && v_reg_idx_spec(plain_reg(ops[i].kind)->0) is Some {
        c.v[v_reg_idx_spec(plain_reg(ops[i].kind)->0)->0 as int]
    } else {
        Seq::new(16, |k: int| 0u8)
    }
}

/// Chunk size of REV16, REV32 and REV64.
pub open spec fn rev_chunk(op: Op) -> int {
    if op == Op::REV16 { 2 } else if op == Op::REV32 { 4 } else { 8 }
}

/// The scalar value of REV16 (bytes swapped in each halfword), REV32 (in each word)
/// and REV64 (in the doubleword).
pub open spec fn rev_scalar(op: Op, v: u64) -> u64 {
    if op == Op::REV16 {
        ((v & 0xff00ff00ff00ff00u64) >> 8u64) | ((v & 0x00ff00ff00ff00ffu64) << 8u64)
    } else if op == Op::REV32 {
        (byte_swap(v >> 32u64, 4) << 32u64) | byte_swap(v, 4)
    } else {
        byte_swap(v, 8)
    }
}

/// REV (plain destination: bytes of the W or X value reversed); REV16/REV32/REV64
/// (plain destination: a SIMD register takes the bytes of the second operand's plain
/// SIMD register, or zeros, reversed within each chunk; a general register the scalar
/// reversal).
pub open spec fn rev_spec(c: CpuView, inst: Instruction) -> CpuView {
    let ops = inst.operands@;
    if ops.len() < 2 || plain_reg(ops[0].kind) is None {
        c
    } else {
        let reg = plain_reg(ops[0].kind)->0;
        if inst.op == Op::REV {
            let v = operand_val_spec(ops[1].kind, c);
            set_reg_val_spec(reg, if is_w_reg_spec(reg) { byte_swap(v, 4) } else { byte_swap(v, 8) }, c)
        } else if v_reg_idx_spec(reg) is Some {
            let src = plain_vec_operand(ops, 1, c);
            let sz = rev_chunk(inst.op);
            with_v(c, v_reg_idx_spec(reg)->0 as int, Seq::new(16, |k: int| src[(k / sz) * sz + (sz - 1 - k % sz)]))
        } else {
            set_reg_val_spec(reg, rev_scalar(inst.op, operand_val_spec(ops[1].kind, c)), c)
        }
    }
}

fn plain_vec_operand_of(ops: &Vec<Operand>, i: usize, ctx: &CpuContext) -> (r: [u8; 16])
    ensures
        r@ == plain_vec_operand(ops@, i as int, ctx@),
{
    if i < ops.len() {
        if let Some(reg) = plain_reg_of(&ops[i]) {
            if let Some(idx) = v_reg_idx(reg) {
                return ctx.v[idx];
            }
        }
    }
    let z = [0u8; 16];
    assert(z@ =~= Seq::new(16, |k: int| 0u8));
    z
}

pub fn exec_rev(ctx: &mut CpuContext, inst: &Instruction)
    ensures
        final(ctx)@ == rev_spec(old(ctx)@, *inst),
{
    let ops = &inst.operands;
    if ops.len() < 2 {
        return;
    }
    let reg = match plain_reg_of(&ops[0]) {
        Some(r) => r,
        None => return,
    };
    if inst.op == Op::REV {
        let v = get_operand_val(&ops[1], ctx);
        let r = if is_w_reg(reg) { swap_bytes_n(v, 4) } else { swap_bytes_n(v, 8) };
        set_reg_val(reg, r, ctx);
    } else if let Some(idx) = v_reg_idx(reg) {
        let src = plain_vec_operand_of(ops, 1, ctx);
        let sz: usize = if inst.op == Op::REV16 { 2 } else if inst.op == Op::REV32 { 4 } else { 8 };
        let mut res = [0u8; 16];
        let mut k: usize = 0;
        while k < 16
            invariant
                0 <= k <= 16,
                sz == rev_chunk(inst.op),
                forall|j: int| 0 <= j < k ==> res@[j] == src@[(j / (sz as int)) * (sz as int) + ((sz as int) - 1 - j % (sz as int))],
            decreases 16 - k,
        {
            let from = (k / sz) * sz + (sz - 1 - k % sz);
            assert(from < 16) by (nonlinear_arith)
                requires
                    k < 16,
                    sz == 2 || sz == 4 || sz == 8,
                    from == (k / sz) * sz + (sz - 1 - k % sz),
            ;
            res[k] = src[from];
            k = k + 1;
        }
        let ghost sz_i = sz as int;
        assert(res@ =~= Seq::new(16, |j: int| src@[(j / sz_i) * sz_i + (sz_i - 1 - j % sz_i)]));
        ctx.v[idx] = res;
        assert(ctx@.v =~= old(ctx)@.v.update(idx as int, res@));
    } else {
        let v = get_operand_val(&ops[1], ctx);
        let r = if inst.op == Op::REV16 {
            ((v & 0xff00ff00ff00ff00u64) >> 8u64) | ((v & 0x00ff00ff00ff00ffu64) << 8u64)
        } else if inst.op == Op::REV32 {
            (swap_bytes_n(v >> 32u64, 4) << 32u64) | swap_bytes_n(v, 4)
        } else {
            swap_bytes_n(v, 8)
        };
        set_reg_val(reg, r, ctx);
    }
}

/// RBIT: a SIMD destination takes the bits of each byte of the second operand's SIMD
/// register (or zeros) reversed; a general one the reversed 32 or 64 bits of the value.
pub open spec fn rbit_spec(c: CpuView, inst: Instruction) -> CpuView {
    let ops = inst.operands@;
    if ops.len() < 2 || get_op_reg_spec(ops[0].kind) is None {
        c
    } else {
        let reg = get_op_reg_spec(ops[0].kind)->0;
        if v_reg_idx_spec(reg) is Some {
            let src = vec_operand_spec(ops, 1, c);
            with_v(c, v_reg_idx_spec(reg)->0 as int, Seq::new(16, |k: int| rbit(src[k] as u64, 8) as u8))
        } else {
            let v = operand_val_spec(ops[1].kind, c);
            set_reg_val_spec(reg, if is_w_reg_spec(reg) { rbit(v, 32) } else { rbit(v, 64) }, c)
        }
    }
}

pub fn exec_rbit(ctx: &mut CpuContext, inst: &Instruction)
    ensures
        final(ctx)@ == rbit_spec(old(ctx)@, *inst),
{
    let ops = &inst.operands;
    if ops.len() < 2 {
        return;
    }
    let reg = match get_op_reg(&ops[0]) {
        Some(r) => r,
        None => return,
    };
    if let Some(idx) = v_reg_idx(reg) {
        let src = vec_operand(ops, 1, ctx);
        let mut res = [0u8; 16];
        let mut k: usize = 0;
        while k < 16
            invariant
                0 <= k <= 16,
                forall|j: int| 0 <= j < k ==> res@[j] == rbit(src@[j] as u64, 8) as u8,
            decreases 16 - k,
        {
            res[k] = reverse_bits_n(src[k] as u64, 8) as u8;
            k = k + 1;
        }
        assert(res@ =~= Seq::new(16, |j: int| rbit(src@[j] as u64, 8) as u8));
        ctx.v[idx] = res;
        assert(ctx@.v =~= old(ctx)@.v.update(idx as int, res@));
    } else {
        let v = get_operand_val(&ops[1], ctx);
        let r = if is_w_reg(reg) { reverse_bits_n(v, 32) } else { reverse_bits_n(v, 64) };
        set_reg_val(reg, r, ctx);
    }
}

/// CLZ: the leading zeros of the 32-bit or 64-bit value of the second operand.
pub open spec fn clz_spec(c: CpuView, inst: Instruction) -> CpuView {
    let ops = inst.operands@;
    if ops.len() < 2 || get_op_reg_spec(ops[0].kind) is None {
        c
    } else {
        let reg = get_op_reg_spec(ops[0].kind)->0;
        let v = operand_val_spec(ops[1].kind, c);
        let n: u64 = if is_w_reg_spec(reg) {
            vstd::std_specs::bits::u32_leading_zeros(v as u32) as u64
        } else {
            vstd::std_specs::bits::u64_leading_zeros(v) as u64
        };
        set_reg_val_spec(reg, n, c)
    }
}

pub fn exec_clz(ctx: &mut CpuContext, inst: &Instruction)
    ensures
        final(ctx)@ == clz_spec(old(ctx)@, *inst),
{
    let ops = &inst.operands;
    if ops.len() < 2 {
        return;
    }
    if let Some(reg) = get_op_reg(&ops[0]) {
        let v = get_operand_val(&ops[1], ctx);
        let n: u64 = if is_w_reg(reg) { (v as u32).leading_zeros() as u64 } else { v.leading_zeros() as u64 };
        set_reg_val(reg, n, ctx);
    }
}

/// CNT: both operands name registers; the SIMD register of the first (V0 when it names
/// none) takes the number of set bits of each byte of that of the second (or of V0).
pub open spec fn cnt_spec(c: CpuView, inst: Instruction) -> CpuView {
    let ops = inst.operands@;
    if ops.len() < 2 || get_op_reg_spec(ops[0].kind) is None || get_op_reg_spec(ops[1].kind) is None {
        c
    } else {
        let i1 = match v_reg_idx_spec(get_op_reg_spec(ops[0].kind)->0) { Some(i) => i as int, None => 0 };
        let i2 = match v_reg_idx_spec(get_op_reg_spec(ops[1].kind)->0) { Some(i) => i as int, None => 0 };
        with_v(c, i1, Seq::new(16, |k: int| ones(c.v[i2][k] as u64, 8) as u8))
    }
}

pub fn exec_cnt(ctx: &mut CpuContext, inst: &Instruction)
    ensures
        final(ctx)@ == cnt_spec(old(ctx)@, *inst),
{
    let ops = &inst.operands;
    if ops.len() < 2 {
        return;
    }
    if let (Some(r1), Some(r2)) = (get_op_reg(&ops[0]), get_op_reg(&ops[1])) {
        let i1 = match v_reg_idx(r1) { Some(i) => i, None => 0 };
        let i2 = match v_reg_idx(r2) { Some(i) => i, None => 0 };
        let mut res = [0u8; 16];
        let mut k: usize = 0;
        while k < 16
            invariant
                0 <= k <= 16,
                i2 < 32,
                forall|j: int| 0 <= j < k ==> res@[j] == ones(ctx.v@[i2 as int]@[j] as u64, 8) as u8,
            decreases 16 - k,
        {
            res[k] = count_ones_n(ctx.v[i2][k] as u64, 8) as u8;
            k = k + 1;
        }
        assert(res@ =~= Seq::new(16, |j: int| ones(ctx@.v[i2 as int][j] as u64, 8) as u8));
        ctx.v[i1] = res;
        assert(ctx@.v =~= old(ctx)@.v.update(i1 as int, res@));
    }
}

// Bitfields, shifts and rotations ---------------------------------------------

/// Register width in bits.
pub open spec fn nbits(is_32: bool) -> u64 {
    if is_32 { 32 } else { 64 }
}

/// A W destination keeps the low 32 bits of the value.
pub open spec fn fit(v: u64, is_32: bool) -> u64 {
    if is_32 { (v as u32) as u64 } else { v }
}

/// SBFIZ/UBFIZ with operands `lsb` and `width`: when `lsb + width` (modulo 2^64) is
/// below the register width they are taken as given, else read as the `immr`/`imms`
/// fields (`lsb = (n - immr % n) % n`, `width = imms % n + 1`). The `width` low bits
/// of `val` (sign-extended for SBFIZ) are shifted left by `lsb`; shift amounts are
/// taken modulo 64.
pub open spec fn bfiz_value(signed: bool, val: u64, a2: u64, a3: u64, is_32: bool) -> u64 {
    let n = nbits(is_32);
    let lsb = if crate::interp::wadd(a2, a3) < n { a2 } else { (((n - a2 % n) as u64) % n) as u64 };
    let width = if crate::interp::wadd(a2, a3) < n { a3 } else { (a3 % n + 1) as u64 };
    let mask = low_mask(width);
    let t = val & mask;
    if signed && width > 0 && t & (1u64 << (((width - 1) as u64) % 64)) != 0 {
        (t | (!0u64 << (width % 64))) << (lsb % 64)
    } else {
        t << (lsb % 64)
    }
}

/// UBFX/SBFX: `width = a3 % 64` bits of `v` from bit `lsb = (a2 % 64) % n`, all bits
/// when the width reaches the register width; SBFX sign-extends from the top bit.
pub open spec fn bfx_value(signed: bool, v: u64, a2: u64, a3: u64, is_32: bool) -> u64 {
    let n = nbits(is_32);
    let lsb = (a2 % 64) % n;
    let width = a3 % 64;
    let mask = if width >= n { !0u64 } else { low_mask(width) };
    let raw = (v >> lsb) & mask;
    let val = if signed && width > 0 && raw & (1u64 << ((width - 1) as u64)) != 0 { raw | !mask } else { raw };
    fit(val, is_32)
}

/// UBFM/SBFM with `immr`, `imms` taken modulo the register width: when `imms >= immr`
/// the field of `imms - immr + 1` bits at `immr` (sign-extended for SBFM), else the
/// `imms + 1` low bits shifted left by `n - immr`.
pub open spec fn bfm_value(signed: bool, v: u64, r0: u64, s0: u64, is_32: bool) -> u64 {
    let n = nbits(is_32);
    let immr = r0 % n;
    let imms = s0 % n;
    let val = if imms >= immr {
        let width = (imms - immr + 1) as u64;
        let mask = if width >= n { !0u64 } else { low_mask(width) };
        let raw = (v >> immr) & mask;
        if signed && raw & (1u64 << ((width - 1) as u64)) != 0 { raw | !mask } else { raw }
    } else {
        let width = (imms + 1) as u64;
        let mask = if width >= n { !0u64 } else { low_mask(width) };
        (v & mask) << ((n - immr) as u64)
    };
    fit(val, is_32)
}

/// BFM/BFI/BFXIL (`insert`) and four-operand LSL: the source rotated right by `immr`
/// (modulo the width) masked to its `imms + 1` low bits (modulo the width), merged into
/// the destination's other bits for the inserts.
pub open spec fn bf_insert_value(insert: bool, orig: u64, v: u64, r0: u64, s0: u64, is_32: bool) -> u64 {
    let n = nbits(is_32);
    let immr = (r0 % n) as u32;
    let imms = s0 % n;
    let rotated = if is_32 { rotr32(v as u32, immr) as u64 } else { rotr64(v, immr) };
    let bit_mask = if imms >= 63 { !0u64 } else { low_mask((imms + 1) as u64) };
    let val = if insert { (orig & !bit_mask) | (rotated & bit_mask) } else { rotated & bit_mask };
    fit(val, is_32)
}

/// Three-operand LSL, LSR, ASR and ROR by the amount modulo the register width.
pub open spec fn shift_value(op: Op, v: u64, s: u32, is_32: bool) -> u64 {
    if is_32 {
        let a = s % 32;
        if op == Op::LSL {
            ((v as u32) << a) as u64
        } else if op == Op::LSR {
            ((v as u32) >> a) as u64
        } else if op == Op::ASR {
            (((v as i32) >> a) as u32) as u64
        } else {
            rotr32(v as u32, a) as u64
        }
    } else {
        let a = s % 64;
        if op == Op::LSL {
            v << a
        } else if op == Op::LSR {
            v >> a
        } else if op == Op::ASR {
            ((v as i64) >> a) as u64
        } else {
            rotr64(v, a)
        }
    }
}

/// EXTR: the concatenation `vn:vm` (32 or 64 bits each) shifted right by `lsb` (modulo
/// 64 or 128), truncated to the register width.
pub open spec fn extr_value(vn: u64, vm: u64, lsb: u32, is_32: bool) -> u64 {
    if is_32 {
        (((((vn as u32) as u64) << 32u64) | ((vm as u32) as u64)) >> (lsb % 64)) as u32 as u64
    } else {
        (((((vn as u128) << 64u32) | (vm as u128)) >> (lsb % 128)) as u64)
    }
}

/// The bitfield and shift instructions: SBFIZ/UBFIZ on a plain destination, the others
/// on any named register; each writes its value to the destination.
pub open spec fn bitfield_spec(c: CpuView, inst: Instruction) -> CpuView {
    let ops = inst.operands@;
    let op = inst.op;
    let four = ops.len() >= 4;
    if op == Op::SBFIZ || op == Op::UBFIZ {
        if !four || plain_reg(ops[0].kind) is None {
            c
        } else {
            let reg = plain_reg(ops[0].kind)->0;
            set_reg_val_spec(reg, bfiz_value(op == Op::SBFIZ, operand_val_spec(ops[1].kind, c),
                operand_val_spec(ops[2].kind, c), operand_val_spec(ops[3].kind, c), is_w_reg_spec(reg)), c)
        }
    } else if (op == Op::LSL && !four) || op == Op::LSR || op == Op::ASR || op == Op::ROR {
        if ops.len() < 3 || get_op_reg_spec(ops[0].kind) is None {
            c
        } else {
            let reg = get_op_reg_spec(ops[0].kind)->0;
            set_reg_val_spec(reg, shift_value(op, operand_val_spec(ops[1].kind, c), operand_val_spec(ops[2].kind, c) as u32,
                is_w_reg_spec(reg)), c)
        }
    } else if !four || get_op_reg_spec(ops[0].kind) is None {
        c
    } else {
        let reg = get_op_reg_spec(ops[0].kind)->0;
        let is_32 = is_w_reg_spec(reg);
        let v1 = operand_val_spec(ops[1].kind, c);
        let a2 = operand_val_spec(ops[2].kind, c);
        let a3 = operand_val_spec(ops[3].kind, c);
        let val = if op == Op::EXTR {
            extr_value(v1, a2, a3 as u32, is_32)
        } else if op == Op::UBFX || op == Op::SBFX {
            bfx_value(op == Op::SBFX, v1, a2, a3, is_32)
        } else if op == Op::UBFM || op == Op::SBFM {
            bfm_value(op == Op::SBFM, v1, a2, a3, is_32)
        } else if op == Op::LSL {
            bf_insert_value(false, 0, v1, a2, a3, is_32)
        } else {
            bf_insert_value(true, get_reg_val_spec(reg, c), v1, a2, a3, is_32)
        };
        set_reg_val_spec(reg, val, c)
    }
}

fn bfiz_value_of(signed: bool, val: u64, a2: u64, a3: u64, is_32: bool) -> (r: u64)
    ensures
        r == bfiz_value(signed, val, a2, a3, is_32),
{
    let n: u64 = if is_32 { 32 } else { 64 };
    let (lsb, width) = if a2.wrapping_add(a3) < n { (a2, a3) } else { ((n - a2 % n) % n, a3 % n + 1) };
    let mask = low_mask_of(width);
    let t = val & mask;
    if signed && width > 0 && t & (1u64 << ((width - 1) % 64)) != 0 {
        (t | (!0u64 << (width % 64))) << (lsb % 64)
    } else {
        t << (lsb % 64)
    }
}

fn bfx_value_of(signed: bool, v: u64, a2: u64, a3: u64, is_32: bool) -> (r: u64)
    ensures
        r == bfx_value(signed, v, a2, a3, is_32),
{
    let n: u64 = if is_32 { 32 } else { 64 };
    let lsb = (a2 % 64) % n;
    let width = a3 % 64;
    let mask = if width >= n { !0u64 } else { low_mask_of(width) };
    let raw = (v >> lsb) & mask;
    let val = if signed && width > 0 && raw & (1u64 << (width - 1)) != 0 { raw | !mask } else { raw };
    if is_32 { (val as u32) as u64 } else { val }
}

fn bfm_value_of(signed: bool, v: u64, r0: u64, s0: u64, is_32: bool) -> (r: u64)
    ensures
        r == bfm_value(signed, v, r0, s0, is_32),
{
    let n: u64 = if is_32 { 32 } else { 64 };
    let immr = r0 % n;
    let imms = s0 % n;
    let val = if imms >= immr {
        let width = imms - immr + 1;
        let mask = if width >= n { !0u64 } else { low_mask_of(width) };
        let raw = (v >> immr) & mask;
        if signed && raw & (1u64 << (width - 1)) != 0 { raw | !mask } else { raw }
    } else {
        let width = imms + 1;
        let mask = if width >= n { !0u64 } else { low_mask_of(width) };
        (v & mask) << (n - immr)
    };
    if is_32 { (val as u32) as u64 } else { val }
}

fn bf_insert_value_of(insert: bool, orig: u64, v: u64, r0: u64, s0: u64, is_32: bool) -> (r: u64)
    ensures
        r == bf_insert_value(insert, orig, v, r0, s0, is_32),
{
    let n: u64 = if is_32 { 32 } else { 64 };
    let immr = (r0 % n) as u32;
    let imms = s0 % n;
    let rotated = if is_32 { rotate_right32(v as u32, immr) as u64 } else { rotate_right64(v, immr) };
    let bit_mask = if imms >= 63 { !0u64 } else { low_mask_of(imms + 1) };
    let val = if insert { (orig & !bit_mask) | (rotated & bit_mask) } else { rotated & bit_mask };
    if is_32 { (val as u32) as u64 } else { val }
}

fn shift_value_of(op: Op, v: u64, s: u32, is_32: bool) -> (r: u64)
    ensures
        r == shift_value(op, v, s, is_32),
{
    if is_32 {
        let a = s % 32;
        if op == Op::LSL {
            ((v as u32) << a) as u64
        } else if op == Op::LSR {
            ((v as u32) >> a) as u64
        } else if op == Op::ASR {
            (((v as i32) >> a) as u32) as u64
        } else {
            rotate_right32(v as u32, a) as u64
        }
    } else {
        let a = s % 64;
        if op == Op::LSL {
            v << a
        } else if op == Op::LSR {
            v >> a
        } else if op == Op::ASR {
            ((v as i64) >> a) as u64
        } else {
            rotate_right64(v, a)
        }
    }
}

fn extr_value_of(vn: u64, vm: u64, lsb: u32, is_32: bool) -> (r: u64)
    ensures
        r == extr_value(vn, vm, lsb, is_32),
{
    if is_32 {
        (((((vn as u32) as u64) << 32u64) | ((vm as u32) as u64)) >> (lsb % 64)) as u32 as u64
    } else {
        (((((vn as u128) << 64u32) | (vm as u128)) >> (lsb % 128)) as u64)
    }
}

pub fn exec_bitfield(ctx: &mut CpuContext, inst: &Instruction)
    ensures
        final(ctx)@ == bitfield_spec(old(ctx)@, *inst),
{
    let ops = &inst.operands;
    let op = inst.op;
    let four = ops.len() >= 4;
    if op == Op::SBFIZ || op == Op::UBFIZ {
        if !four {
            return;
        }
        if let Some(reg) = plain_reg_of(&ops[0]) {
            let v = bfiz_value_of(op == Op::SBFIZ, get_operand_val(&ops[1], ctx), get_operand_val(&ops[2], ctx),
                get_operand_val(&ops[3], ctx), is_w_reg(reg));
            set_reg_val(reg, v, ctx);
        }
    } else if (op == Op::LSL && !four) || op == Op::LSR || op == Op::ASR || op == Op::ROR {
        if ops.len() < 3 {
            return;
        }
        if let Some(reg) = get_op_reg(&ops[0]) {
            let v = shift_value_of(op, get_operand_val(&ops[1], ctx), get_operand_val(&ops[2], ctx) as u32, is_w_reg(reg));
            set_reg_val(reg, v, ctx);
        }
    } else if four {
        if let Some(reg) = get_op_reg(&ops[0]) {
            let is_32 = is_w_reg(reg);
            let v1 = get_operand_val(&ops[1], ctx);
            let a2 = get_operand_val(&ops[2], ctx);
            let a3 = get_operand_val(&ops[3], ctx);
            let val = if op == Op::EXTR {
                extr_value_of(v1, a2, a3 as u32, is_32)
            } else if op == Op::UBFX || op == Op::SBFX {
                bfx_value_of(op == Op::SBFX, v1, a2, a3, is_32)
            } else if op == Op::UBFM || op == Op::SBFM {
                bfm_value_of(op == Op::SBFM, v1, a2, a3, is_32)
            } else if op == Op::LSL {
                bf_insert_value_of(false, 0, v1, a2, a3, is_32)
            } else {
                bf_insert_value_of(true, get_reg_val(reg, ctx), v1, a2, a3, is_32)
            };
            set_reg_val(reg, val, ctx);
        }
    }
}

} // verus!
