//! Loads and stores between the register state and guest memory.

use vstd::prelude::*;
use crate::cpu::{CpuContext, CpuView};
use crate::decoder::{Instruction, Op, Operand, OperandKind, Reg};
use crate::interp::{
    get_multi_regs, get_multi_regs_spec, get_reg_val, get_reg_val_spec, get_vec_elem_size, imm_i64_spec, imm_to_i64,
    is_64bit_vector, wadd_signed, eval_mem_addr, get_op_reg, get_op_reg_spec, get_operand_val, is_mem_fault, is_w_reg, is_w_reg_spec, le_value,
    lemma_mem_fault, m_err, mem_addr_spec, operand_val_spec, reg_size, reg_size_spec, set_reg_val, set_reg_val_spec,
    v_reg_idx, v_reg_idx_spec,
};
use crate::interp::alu::{plain_reg, plain_reg_of, with_v};
use crate::interp::scan::{is_64bit_vector_spec, vec_elem_size_spec};
use crate::memory::{bounds_message, chunk_write, lemma_read_len, read_spec, zeros, MemoryManager, SegView};
use crate::Error;

verus! {

/// The value of the first `n` bytes (at most 8) of `b`, little endian.
pub fn le_value_vec(b: &Vec<u8>, n: usize) -> (r: u64)
    requires
        n <= 8,
        n <= b.len(),
    ensures
        r == le_value(b@, n as int),
{
    let mut r: u64 = 0;
    let mut k: usize = 0;
    while k < n
        invariant
            n <= 8,
            n <= b.len(),
            0 <= k <= n,
            r == le_value(b@, k as int),
        decreases n - k,
    {
        r = r | ((b[k] as u64) << ((8 * k) as u64));
        k = k + 1;
    }
    r
}

/// A register image holding `b` in its low bytes and zeros above.
pub fn fill_low(b: &Vec<u8>) -> (r: [u8; 16])
    requires
        b.len() <= 16,
    ensures
        r@ == b@ + zeros((16 - b.len()) as nat),
{
    let mut r = [0u8; 16];
    let mut k: usize = 0;
    while k < b.len()
        invariant
            b.len() <= 16,
            0 <= k <= b.len(),
            r@.len() == 16,
            forall|i: int| 0 <= i < k ==> r@[i] == b@[i],
            forall|i: int| k <= i < 16 ==> r@[i] == 0u8,
        decreases b.len() - k,
    {
        r[k] = b[k];
        k = k + 1;
    }
    assert(r@ =~= b@ + zeros((16 - b.len()) as nat));
    r
}

/// The `n` low bytes of register image `v`, as a vector.
pub fn low_bytes(v: &[u8; 16], n: usize) -> (r: Vec<u8>)
    requires
        n <= 16,
    ensures
        r@ == v@.subrange(0, n as int),
{
    let mut r: Vec<u8> = Vec::new();
    let mut k: usize = 0;
    while k < n
        invariant
            n <= 16,
            0 <= k <= n,
            r@ == v@.subrange(0, k as int),
        decreases n - k,
    {
        r.push(v[k]);
        k = k + 1;
        assert(r@ =~= v@.subrange(0, k as int));
    }
    r
}

/// The `n` low bytes of `val`, little endian, as a vector.
pub fn le_bytes_vec(val: u64, n: usize) -> (r: Vec<u8>)
    requires
        n <= 8,
    ensures
        r@ == crate::interp::le_bytes(val, n as int),
{
    let mut r: Vec<u8> = Vec::new();
    let mut k: usize = 0;
    while k < n
        invariant
            n <= 8,
            0 <= k <= n,
            r@ == crate::interp::le_bytes(val, k as int),
        decreases n - k,
    {
        r.push(((val >> ((8 * k) as u64)) & 0xff) as u8);
        k = k + 1;
        assert(r@ =~= crate::interp::le_bytes(val, k as int));
    }
    r
}

// Single-register loads -------------------------------------------------------

/// LDR and its unscaled, exclusive and acquire forms: the width follows the register.
pub open spec fn is_plain_load(op: Op) -> bool {
    op == Op::LDR || op == Op::LDUR || op == Op::LDAXR || op == Op::LDXR || op == Op::LDAR
}

/// The single-register loads.
pub open spec fn is_load(op: Op) -> bool {
    is_plain_load(op) || op == Op::LDRSW || op == Op::LDURSW || op == Op::LDRH || op == Op::LDURH
        || op == Op::LDRSH || op == Op::LDURSH || op == Op::LDRB || op == Op::LDURB || op == Op::LDXRB
        || op == Op::LDAXRB || op == Op::LDARB || op == Op::LDRSB || op == Op::LDURSB
}

/// Bytes a single-register load reads: a word for LDRSW, a halfword for LDRH and LDRSH,
/// a byte for the byte loads; for LDR 4 into a W register, the view's size into a SIMD
/// register, 8 otherwise.
pub open spec fn load_width(op: Op, reg: Reg) -> nat {
    if op == Op::LDRSW || op == Op::LDURSW {
        4
    } else if op == Op::LDRH || op == Op::LDURH || op == Op::LDRSH || op == Op::LDURSH {
        2
    } else if is_plain_load(op) {
        if is_w_reg_spec(reg) {
            4
        } else if v_reg_idx_spec(reg) is Some {
            reg_size_spec(reg) as nat
        } else {
            8
        }
    } else {
        1
    }
}

/// The value a load writes from the bytes it read: zero-extended, or sign-extended to
/// 64 bits (to 32 bits for a W destination of LDRSH and LDRSB; always 64 for LDRSW).
pub open spec fn load_value(op: Op, reg: Reg, b: Seq<u8>) -> u64 {
    let raw = le_value(b, load_width(op, reg) as int);
    if op == Op::LDRSW || op == Op::LDURSW {
        ((raw as u32 as i32) as i64) as u64
    } else if op == Op::LDRSH || op == Op::LDURSH {
        if is_w_reg_spec(reg) {
            (((raw as u16 as i16) as i32) as u32) as u64
        } else {
            ((raw as u16 as i16) as i64) as u64
        }
    } else if op == Op::LDRSB || op == Op::LDURSB {
        if is_w_reg_spec(reg) {
            (((raw as u8 as i8) as i32) as u32) as u64
        } else {
            ((raw as u8 as i8) as i64) as u64
        }
    } else {
        raw
    }
}

/// The state after a load of bytes `b` into `reg`: a SIMD register (through LDR) takes
/// the bytes and zeros above them; any other register the loaded value.
pub open spec fn load_into(c: CpuView, op: Op, reg: Reg, b: Seq<u8>) -> CpuView {
    if is_plain_load(op) && !is_w_reg_spec(reg) && v_reg_idx_spec(reg) is Some {
        with_v(c, v_reg_idx_spec(reg)->0 as int, b + zeros((16 - b.len()) as nat))
    } else {
        set_reg_val_spec(reg, load_value(op, reg, b), c)
    }
}

/// A single-register load: the address comes from the second operand (with its base
/// write-back), then the bytes are read and written to the register the first operand
/// names. Gives the state and, for a fault, the memory error's message (the write-back
/// stays).
pub open spec fn load_spec(c: CpuView, segs: Seq<SegView>, inst: Instruction) -> (CpuView, Option<Seq<char>>) {
    let ops = inst.operands@;
    if ops.len() < 2 || get_op_reg_spec(ops[0].kind) is None {
        (c, None)
    } else {
        let reg = get_op_reg_spec(ops[0].kind)->0;
        let (a, c1) = mem_addr_spec(ops[1].kind, c);
        match a {
            None => (c1, None),
            Some(addr) => {
                let n = load_width(inst.op, reg);
                match read_spec(segs, addr as int, n) {
                    None => (c1, Some(bounds_message(segs, addr, n))),
                    Some(b) => (load_into(c1, inst.op, reg, b), None),
                }
            },
        }
    }
}

fn load_width_of(op: Op, reg: Reg) -> (r: usize)
    ensures
        r == load_width(op, reg),
        r <= 16,
        !(is_plain_load(op) && !is_w_reg_spec(reg) && v_reg_idx_spec(reg) is Some) ==> r <= 8,
{
    match op {
        Op::LDRSW | Op::LDURSW => 4,
        Op::LDRH | Op::LDURH | Op::LDRSH | Op::LDURSH => 2,
        Op::LDR | Op::LDUR | Op::LDAXR | Op::LDXR | Op::LDAR => {
            if is_w_reg(reg) {
                4
            } else if v_reg_idx(reg).is_some() {
                reg_size(reg)
            } else {
                8
            }
        },
        _ => 1,
    }
}

fn load_value_of(op: Op, reg: Reg, b: &Vec<u8>) -> (r: u64)
    requires
        b.len() == load_width(op, reg),
        load_width(op, reg) <= 8,
    ensures
        r == load_value(op, reg, b@),
{
    let raw = le_value_vec(b, b.len());
    match op {
        Op::LDRSW | Op::LDURSW => ((raw as u32 as i32) as i64) as u64,
        Op::LDRSH | Op::LDURSH => if is_w_reg(reg) {
            (((raw as u16 as i16) as i32) as u32) as u64
        } else {
            ((raw as u16 as i16) as i64) as u64
        },
        Op::LDRSB | Op::LDURSB => if is_w_reg(reg) {
            (((raw as u8 as i8) as i32) as u32) as u64
        } else {
            ((raw as u8 as i8) as i64) as u64
        },
        _ => raw,
    }
}

pub fn exec_load(ctx: &mut CpuContext, mem: &MemoryManager, inst: &Instruction, pc: u64) -> (r: Result<(), Error>)
    requires
        mem.wf(),
        is_load(inst.op),
    ensures
        final(ctx)@ == load_spec(old(ctx)@, mem.segs(), *inst).0,
        match load_spec(old(ctx)@, mem.segs(), *inst).1 {
            None => r is Ok,
            Some(m) => r is Err && is_mem_fault(r->Err_0, pc, m),
        },
{
    let ops = &inst.operands;
    if ops.len() < 2 {
        return Ok(());
    }
    let reg = match get_op_reg(&ops[0]) {
        Some(r) => r,
        None => return Ok(()),
    };
    let addr = match eval_mem_addr(&ops[1], ctx) {
        Some(a) => a,
        None => return Ok(()),
    };
    let n = load_width_of(inst.op, reg);
    proof { lemma_read_len(mem.segs(), addr as int, n as nat); }
    let bytes = match mem.read(addr, n) {
        Ok(b) => b,
        Err(e) => {
            let w = m_err(pc, e);
            proof { lemma_mem_fault(pc, e, w, bounds_message(mem.segs(), addr, n as nat)); }
            return Err(w);
        },
    };
    let is_plain = match inst.op {
        Op::LDR | Op::LDUR | Op::LDAXR | Op::LDXR | Op::LDAR => true,
        _ => false,
    };
    if is_plain && !is_w_reg(reg) && v_reg_idx(reg).is_some() {
        let idx = v_reg_idx(reg).unwrap();
        let img = fill_low(&bytes);
        ctx.v[idx] = img;
        assert(ctx@.v =~= with_v(mem_addr_spec(ops@[1].kind, old(ctx)@).1, idx as int, img@).v);
    } else {
        let val = load_value_of(inst.op, reg, &bytes);
        set_reg_val(reg, val, ctx);
    }
    Ok(())
}

// Single-register stores ------------------------------------------------------

/// The single-register stores, exclusive stores included.
pub open spec fn is_store(op: Op) -> bool {
    op == Op::STR || op == Op::STUR || op == Op::STLR || op == Op::STRH || op == Op::STURH || op == Op::STRB
        || op == Op::STURB || op == Op::STLRB || op == Op::STLXR || op == Op::STXR || op == Op::STLXRB
        || op == Op::STXRB
}

/// The segments after writing `data` at `addr` and, for a fault, the memory error's
/// message (the pieces written before the fault stay written).
pub open spec fn write_outcome(segs: Seq<SegView>, addr: u64, data: Seq<u8>) -> (Seq<SegView>, Option<Seq<char>>) {
    let (s2, ok) = chunk_write(segs, addr as int, data);
    (s2, if ok { None } else { Some(bounds_message(s2, addr, data.len())) })
}

/// The bytes STR stores from `reg` holding `val`: 4 for a W register, the view's size
/// of a SIMD register, 8 otherwise.
pub open spec fn str_bytes(c: CpuView, reg: Reg, val: u64) -> Seq<u8> {
    if is_w_reg_spec(reg) {
        crate::interp::le_bytes(val, 4)
    } else if v_reg_idx_spec(reg) is Some {
        c.v[v_reg_idx_spec(reg)->0 as int].subrange(0, reg_size_spec(reg) as int)
    } else {
        crate::interp::le_bytes(val, 8)
    }
}

/// A single-register store. STR/STUR/STLR store the register the first operand names
/// (its value read before the address's write-back); STRH and STRB the low 2 bytes and
/// the low byte of the first operand's value. The exclusive stores STXR/STLXR (8 bytes)
/// and STXRB/STLXRB (1 byte) store the second operand at the third and, when the store
/// succeeds, write 0 to the status register the first operand names. Gives the register
/// state, the segments and, for a fault, the memory error's message.
pub open spec fn store_spec(c: CpuView, segs: Seq<SegView>, inst: Instruction) -> (CpuView, Seq<SegView>, Option<Seq<char>>) {
    let ops = inst.operands@;
    let op = inst.op;
    if op == Op::STLXR || op == Op::STXR || op == Op::STLXRB || op == Op::STXRB {
        if ops.len() < 3 || plain_reg(ops[0].kind) is None {
            (c, segs, None)
        } else {
            let val = operand_val_spec(ops[1].kind, c);
            let (a, c1) = mem_addr_spec(ops[2].kind, c);
            match a {
                None => (c1, segs, None),
                Some(addr) => {
                    let n: int = if op == Op::STLXR || op == Op::STXR { 8 } else { 1 };
                    let (s2, f) = write_outcome(segs, addr, crate::interp::le_bytes(val, n));
                    if f is None {
                        (set_reg_val_spec(plain_reg(ops[0].kind)->0, 0, c1), s2, None)
                    } else {
                        (c1, s2, f)
                    }
                },
            }
        }
    } else if ops.len() < 2 || ((op == Op::STR || op == Op::STUR || op == Op::STLR) && get_op_reg_spec(ops[0].kind) is None) {
        (c, segs, None)
    } else {
        let val = operand_val_spec(ops[0].kind, c);
        let (a, c1) = mem_addr_spec(ops[1].kind, c);
        match a {
            None => (c1, segs, None),
            Some(addr) => {
                let data = if op == Op::STRH || op == Op::STURH {
                    crate::interp::le_bytes(val, 2)
                } else if op == Op::STRB || op == Op::STURB || op == Op::STLRB {
                    crate::interp::le_bytes(val, 1)
                } else {
                    str_bytes(c1, get_op_reg_spec(ops[0].kind)->0, val)
                };
                let (s2, f) = write_outcome(segs, addr, data);
                (c1, s2, f)
            },
        }
    }
}

/// Writes `data` at `addr`, turning a fault into the interpreter's error for `pc`.
fn write_at(mem: &mut MemoryManager, addr: u64, data: &[u8], pc: u64) -> (r: Result<(), Error>)
    requires
        old(mem).wf(),
    ensures
        final(mem).wf(),
        final(mem).segs() == write_outcome(old(mem).segs(), addr, data@).0,
        match write_outcome(old(mem).segs(), addr, data@).1 {
            None => r is Ok,
            Some(m) => r is Err && is_mem_fault(r->Err_0, pc, m),
        },
        final(mem).brk_base == old(mem).brk_base,
        final(mem).brk_current == old(mem).brk_current,
        final(mem).brk_mapped_end == old(mem).brk_mapped_end,
        final(mem).mmap_current == old(mem).mmap_current,
{
    match mem.write(addr, data) {
        Ok(()) => Ok(()),
        Err(e) => {
            let w = m_err(pc, e);
            proof { lemma_mem_fault(pc, e, w, bounds_message(mem.segs(), addr, data@.len())); }
            Err(w)
        },
    }
}

pub fn exec_store(ctx: &mut CpuContext, mem: &mut MemoryManager, inst: &Instruction, pc: u64) -> (r: Result<(), Error>)
    requires
        old(mem).wf(),
        is_store(inst.op),
    ensures
        final(mem).wf(),
        final(ctx)@ == store_spec(old(ctx)@, old(mem).segs(), *inst).0,
        final(mem).segs() == store_spec(old(ctx)@, old(mem).segs(), *inst).1,
        match store_spec(old(ctx)@, old(mem).segs(), *inst).2 {
            None => r is Ok,
            Some(m) => r is Err && is_mem_fault(r->Err_0, pc, m),
        },
        final(mem).brk_base == old(mem).brk_base,
        final(mem).brk_current == old(mem).brk_current,
        final(mem).brk_mapped_end == old(mem).brk_mapped_end,
        final(mem).mmap_current == old(mem).mmap_current,
{
    let ops = &inst.operands;
    let op = inst.op;
    if op == Op::STLXR || op == Op::STXR || op == Op::STLXRB || op == Op::STXRB {
        if ops.len() < 3 {
            return Ok(());
        }
        let status = match plain_reg_of(&ops[0]) {
            Some(r) => r,
            None => return Ok(()),
        };
        let val = get_operand_val(&ops[1], ctx);
        let addr = match eval_mem_addr(&ops[2], ctx) {
            Some(a) => a,
            None => return Ok(()),
        };
        let n: usize = if op == Op::STLXR || op == Op::STXR { 8 } else { 1 };
        let data = le_bytes_vec(val, n);
        write_at(mem, addr, data.as_slice(), pc)?;
        set_reg_val(status, 0, ctx);
        return Ok(());
    }
    if ops.len() < 2 {
        return Ok(());
    }
    let is_str = op == Op::STR || op == Op::STUR || op == Op::STLR;
    let reg = get_op_reg(&ops[0]);
    if is_str && reg.is_none() {
        return Ok(());
    }
    let val = get_operand_val(&ops[0], ctx);
    let addr = match eval_mem_addr(&ops[1], ctx) {
        Some(a) => a,
        None => return Ok(()),
    };
    let data = if op == Op::STRH || op == Op::STURH {
        le_bytes_vec(val, 2)
    } else if op == Op::STRB || op == Op::STURB || op == Op::STLRB {
        le_bytes_vec(val, 1)
    } else {
        let reg = reg.unwrap();
        if is_w_reg(reg) {
            le_bytes_vec(val, 4)
        } else if let Some(idx) = v_reg_idx(reg) {
            low_bytes(&ctx.v[idx], reg_size(reg))
        } else {
            le_bytes_vec(val, 8)
        }
    };
    write_at(mem, addr, data.as_slice(), pc)
}

// Pair loads and stores ---------------------------------------------------------

/// Bytes each register of a pair moves: the first register's view size when both are
/// SIMD registers, 4 for a W first register, 8 otherwise.
pub open spec fn pair_width(r1: Reg, r2: Reg) -> nat {
    if v_reg_idx_spec(r1) is Some && v_reg_idx_spec(r2) is Some {
        reg_size_spec(r1) as nat
    } else if is_w_reg_spec(r1) {
        4
    } else {
        8
    }
}

fn pair_width_of(r1: Reg, r2: Reg) -> (r: usize)
    ensures
        r == pair_width(r1, r2),
        r <= 16,
        !(v_reg_idx_spec(r1) is Some && v_reg_idx_spec(r2) is Some) ==> r <= 8,
{
    if v_reg_idx(r1).is_some() && v_reg_idx(r2).is_some() {
        reg_size(r1)
    } else if is_w_reg(r1) {
        4
    } else {
        8
    }
}

/// LDP: both operands must name registers; `n = pair_width` bytes are read at the
/// address and `n` more right after it (the address plus `n`, modulo 2^64). Only when
/// both reads succeed are the registers written, the first then the second: SIMD
/// registers take the bytes with zeros above, others the little-endian value.
pub open spec fn ldp_spec(c: CpuView, segs: Seq<SegView>, inst: Instruction) -> (CpuView, Option<Seq<char>>) {
    let ops = inst.operands@;
    if ops.len() < 3 || get_op_reg_spec(ops[0].kind) is None || get_op_reg_spec(ops[1].kind) is None {
        (c, None)
    } else {
        let r1 = get_op_reg_spec(ops[0].kind)->0;
        let r2 = get_op_reg_spec(ops[1].kind)->0;
        let (a, c1) = mem_addr_spec(ops[2].kind, c);
        match a {
            None => (c1, None),
            Some(addr) => {
                let n = pair_width(r1, r2);
                let addr2 = crate::interp::wadd(addr, n as u64);
                match read_spec(segs, addr as int, n) {
                    None => (c1, Some(bounds_message(segs, addr, n))),
                    Some(b1) => match read_spec(segs, addr2 as int, n) {
                        None => (c1, Some(bounds_message(segs, addr2, n))),
                        Some(b2) => if v_reg_idx_spec(r1) is Some && v_reg_idx_spec(r2) is Some {
                            let c2 = with_v(c1, v_reg_idx_spec(r1)->0 as int, b1 + zeros((16 - n) as nat));
                            (with_v(c2, v_reg_idx_spec(r2)->0 as int, b2 + zeros((16 - n) as nat)), None)
                        } else {
                            let c2 = set_reg_val_spec(r1, le_value(b1, n as int), c1);
                            (set_reg_val_spec(r2, le_value(b2, n as int), c2), None)
                        },
                    },
                }
            },
        }
    }
}

pub fn exec_ldp(ctx: &mut CpuContext, mem: &MemoryManager, inst: &Instruction, pc: u64) -> (r: Result<(), Error>)
    requires
        mem.wf(),
    ensures
        final(ctx)@ == ldp_spec(old(ctx)@, mem.segs(), *inst).0,
        match ldp_spec(old(ctx)@, mem.segs(), *inst).1 {
            None => r is Ok,
            Some(m) => r is Err && is_mem_fault(r->Err_0, pc, m),
        },
{
    let ops = &inst.operands;
    if ops.len() < 3 {
        return Ok(());
    }
    let (r1, r2) = match (get_op_reg(&ops[0]), get_op_reg(&ops[1])) {
        (Some(a), Some(b)) => (a, b),
        _ => return Ok(()),
    };
    let addr = match eval_mem_addr(&ops[2], ctx) {
        Some(a) => a,
        None => return Ok(()),
    };
    let n = pair_width_of(r1, r2);
    let addr2 = addr.wrapping_add(n as u64);
    proof {
        lemma_read_len(mem.segs(), addr as int, n as nat);
        lemma_read_len(mem.segs(), addr2 as int, n as nat);
    }
    let b1 = match mem.read(addr, n) {
        Ok(b) => b,
        Err(e) => {
            let w = m_err(pc, e);
            proof { lemma_mem_fault(pc, e, w, bounds_message(mem.segs(), addr, n as nat)); }
            return Err(w);
        },
    };
    let b2 = match mem.read(addr2, n) {
        Ok(b) => b,
        Err(e) => {
            let w = m_err(pc, e);
            proof { lemma_mem_fault(pc, e, w, bounds_message(mem.segs(), addr2, n as nat)); }
            return Err(w);
        },
    };
    if v_reg_idx(r1).is_some() && v_reg_idx(r2).is_some() {
        let i1 = v_reg_idx(r1).unwrap();
        let i2 = v_reg_idx(r2).unwrap();
        let img1 = fill_low(&b1);
        let img2 = fill_low(&b2);
        let ghost c1 = ctx@;
        ctx.v[i1] = img1;
        assert(ctx@.v =~= with_v(c1, i1 as int, img1@).v);
        let ghost c2 = ctx@;
        ctx.v[i2] = img2;
        assert(ctx@.v =~= with_v(c2, i2 as int, img2@).v);
    } else {
        let v1 = le_value_vec(&b1, n);
        let v2 = le_value_vec(&b2, n);
        set_reg_val(r1, v1, ctx);
        set_reg_val(r2, v2, ctx);
    }
    Ok(())
}

/// STP: a missing register reads as XZR. With two SIMD registers the low `n` bytes of
/// each are stored; otherwise the values of the first two operands (read after the
/// address's write-back), 4 bytes each for a W first register, else 8. The second
/// goes `n` bytes after the first (modulo 2^64) and only when the first was stored.
pub open spec fn stp_spec(c: CpuView, segs: Seq<SegView>, inst: Instruction) -> (CpuView, Seq<SegView>, Option<Seq<char>>) {
    let ops = inst.operands@;
    if ops.len() < 3 {
        (c, segs, None)
    } else {
        let r1 = match get_op_reg_spec(ops[0].kind) { Some(r) => r, None => Reg::Xzr };
        let r2 = match get_op_reg_spec(ops[1].kind) { Some(r) => r, None => Reg::Xzr };
        let (a, c1) = mem_addr_spec(ops[2].kind, c);
        match a {
            None => (c1, segs, None),
            Some(addr) => {
                let n = pair_width(r1, r2);
                let (d1, d2) = if v_reg_idx_spec(r1) is Some && v_reg_idx_spec(r2) is Some {
                    (c1.v[v_reg_idx_spec(r1)->0 as int].subrange(0, n as int),
                     c1.v[v_reg_idx_spec(r2)->0 as int].subrange(0, n as int))
                } else {
                    (crate::interp::le_bytes(operand_val_spec(ops[0].kind, c1), n as int),
                     crate::interp::le_bytes(operand_val_spec(ops[1].kind, c1), n as int))
                };
                let (s1, f1) = write_outcome(segs, addr, d1);
                if f1 is Some {
                    (c1, s1, f1)
                } else {
                    let (s2, f2) = write_outcome(s1, crate::interp::wadd(addr, n as u64), d2);
                    (c1, s2, f2)
                }
            },
        }
    }
}

pub fn exec_stp(ctx: &mut CpuContext, mem: &mut MemoryManager, inst: &Instruction, pc: u64) -> (r: Result<(), Error>)
    requires
        old(mem).wf(),
    ensures
        final(mem).wf(),
        final(ctx)@ == stp_spec(old(ctx)@, old(mem).segs(), *inst).0,
        final(mem).segs() == stp_spec(old(ctx)@, old(mem).segs(), *inst).1,
        match stp_spec(old(ctx)@, old(mem).segs(), *inst).2 {
            None => r is Ok,
            Some(m) => r is Err && is_mem_fault(r->Err_0, pc, m),
        },
        final(mem).brk_base == old(mem).brk_base,
        final(mem).brk_current == old(mem).brk_current,
        final(mem).brk_mapped_end == old(mem).brk_mapped_end,
        final(mem).mmap_current == old(mem).mmap_current,
{
    let ops = &inst.operands;
    if ops.len() < 3 {
        return Ok(());
    }
    let r1 = match get_op_reg(&ops[0]) { Some(r) => r, None => Reg::Xzr };
    let r2 = match get_op_reg(&ops[1]) { Some(r) => r, None => Reg::Xzr };
    let addr = match eval_mem_addr(&ops[2], ctx) {
        Some(a) => a,
        None => return Ok(()),
    };
    let n = pair_width_of(r1, r2);
    let (d1, d2) = if v_reg_idx(r1).is_some() && v_reg_idx(r2).is_some() {
        let i1 = v_reg_idx(r1).unwrap();
        let i2 = v_reg_idx(r2).unwrap();
        (low_bytes(&ctx.v[i1], n), low_bytes(&ctx.v[i2], n))
    } else {
        (le_bytes_vec(get_operand_val(&ops[0], ctx), n), le_bytes_vec(get_operand_val(&ops[1], ctx), n))
    };
    write_at(mem, addr, d1.as_slice(), pc)?;
    write_at(mem, addr.wrapping_add(n as u64), d2.as_slice(), pc)
}

// Vector structure loads and stores -----------------------------------------------------

/// The post-index offset operand of LD1/ST1/LD2-4: an immediate's signed value, a
/// register's value, else `dflt`.
pub open spec fn post_offset(o: OperandKind, c: CpuView, dflt: i64) -> i64 {
    match o {
        OperandKind::Imm32 { imm, .. } => imm_i64_spec(imm),
        OperandKind::Imm64 { imm, .. } => imm_i64_spec(imm),
        _ => match get_op_reg_spec(o) {
            Some(r) => get_reg_val_spec(r, c) as i64,
            None => dflt,
        },
    }
}

/// With a third operand, the base register of a `[base, #imm]` address advances by the
/// post-index offset (modulo 2^64); for LD1/ST1 (`always` false) only when it is nonzero.
pub open spec fn apply_post(c: CpuView, ops: Seq<Operand>, dflt: i64, always: bool) -> CpuView {
    if ops.len() >= 3 {
        let off = post_offset(ops[2].kind, c, dflt);
        if always || off != 0 {
            match ops[1].kind {
                OperandKind::MemOffset { reg, .. } => set_reg_val_spec(reg, wadd_signed(get_reg_val_spec(reg, c), off), c),
                _ => c,
            }
        } else {
            c
        }
    } else {
        c
    }
}

fn exec_post(ctx: &mut CpuContext, ops: &Vec<Operand>, dflt: i64, always: bool)
    ensures
        final(ctx)@ == apply_post(old(ctx)@, ops@, dflt, always),
{
    if ops.len() < 3 {
        return;
    }
    let off = match &ops[2].kind {
        OperandKind::Imm32 { imm, .. } => imm_to_i64(imm),
        OperandKind::Imm64 { imm, .. } => imm_to_i64(imm),
        _ => match get_op_reg(&ops[2]) {
            Some(r) => get_reg_val(r, ctx) as i64,
            None => dflt,
        },
    };
    if always || off != 0 {
        if let OperandKind::MemOffset { reg, .. } = &ops[1].kind {
            let cur = get_reg_val(*reg, ctx);
            set_reg_val(*reg, cur.wrapping_add_signed(off), ctx);
        }
    }
}

/// LD1 from register `i` of the list on: each register in turn takes `sz` bytes (zeros
/// above) from the next block (a non-SIMD entry still reads its block); a fault stops
/// the walk with the registers loaded so far.
pub open spec fn ld1_from(c: CpuView, segs: Seq<SegView>, regs: Seq<Reg>, i: int, addr: u64, sz: nat) -> (CpuView, Option<Seq<char>>)
    decreases regs.len() - i,
{
    if i < 0 || i >= regs.len() {
        (c, None)
    } else {
        match read_spec(segs, addr as int, sz) {
            None => (c, Some(bounds_message(segs, addr, sz))),
            Some(b) => {
                let c2 = match v_reg_idx_spec(regs[i]) {
                    Some(idx) => with_v(c, idx as int, b + zeros((16 - sz) as nat)),
                    None => c,
                };
                ld1_from(c2, segs, regs, i + 1, crate::interp::wadd(addr, sz as u64), sz)
            },
        }
    }
}

/// LD1R from register `i` on: each register reads `esz` bytes at the same address and
/// takes them in every element.
pub open spec fn ld1r_from(c: CpuView, segs: Seq<SegView>, regs: Seq<Reg>, i: int, addr: u64, esz: nat) -> (CpuView, Option<Seq<char>>)
    decreases regs.len() - i,
{
    if i < 0 || i >= regs.len() {
        (c, None)
    } else {
        match read_spec(segs, addr as int, esz) {
            None => (c, Some(bounds_message(segs, addr, esz))),
            Some(b) => {
                let c2 = match v_reg_idx_spec(regs[i]) {
                    Some(idx) => with_v(c, idx as int, Seq::new(16, |k: int| b[k % (esz as int)])),
                    None => c,
                };
                ld1r_from(c2, segs, regs, i + 1, addr, esz)
            },
        }
    }
}

/// LD2/LD3/LD4 from register `i` on, with the `16 * n` bytes `b` read: each SIMD
/// register of the list takes words `elem * n + i` of `b` as its words `elem`.
pub open spec fn ldn_from(c: CpuView, regs: Seq<Reg>, i: int, b: Seq<u8>) -> CpuView
    decreases regs.len() - i,
{
    if i < 0 || i >= regs.len() {
        c
    } else {
        let n = regs.len() as int;
        let c2 = match v_reg_idx_spec(regs[i]) {
            Some(idx) => with_v(c, idx as int, Seq::new(16, |k: int| b[((k / 4) * n + i) * 4 + k % 4])),
            None => c,
        };
        ldn_from(c2, regs, i + 1, b)
    }
}

/// The vector structure loads. LD1 fills the listed registers from consecutive blocks of
/// 8 or 16 bytes (by the arrangement), LD1R replicates one element into each, then with
/// a third operand the base may advance (`apply_post`). LD2/LD3/LD4 read `16 * n` bytes
/// for `n` listed registers and de-interleave words into them, leaving them as they are
/// when that read faults (no error); then with a third operand the base advances by it
/// (by `16 * n` for an operand that is neither immediate nor register).
pub open spec fn vld_spec(c: CpuView, segs: Seq<SegView>, inst: Instruction) -> (CpuView, Option<Seq<char>>) {
    let ops = inst.operands@;
    if ops.len() < 2 {
        (c, None)
    } else {
        let regs = get_multi_regs_spec(ops[0].kind);
        let (a, c1) = mem_addr_spec(ops[1].kind, c);
        match a {
            None => (c1, None),
            Some(addr) => if inst.op == Op::LD1 || inst.op == Op::LD1R {
                let (c2, f) = if inst.op == Op::LD1R {
                    ld1r_from(c1, segs, regs, 0, addr, vec_elem_size_spec(ops[0].text@) as nat)
                } else {
                    ld1_from(c1, segs, regs, 0, addr, if is_64bit_vector_spec(ops[0].text@) { 8 } else { 16 })
                };
                if f is Some { (c2, f) } else { (apply_post(c2, ops, 0, false), None) }
            } else {
                let total = regs.len() * 16;
                let c2 = match read_spec(segs, addr as int, total) {
                    Some(b) => ldn_from(c1, regs, 0, b),
                    None => c1,
                };
                (apply_post(c2, ops, total as i64, true), None)
            },
        }
    }
}

/// Register lists small enough that their byte counts fit in `usize`.
pub open spec fn list_fits(inst: Instruction) -> bool {
    inst.operands@.len() >= 1 ==> get_multi_regs_spec(inst.operands@[0].kind).len() * 16 <= usize::MAX
}

pub fn exec_vld(ctx: &mut CpuContext, mem: &MemoryManager, inst: &Instruction, pc: u64) -> (r: Result<(), Error>)
    requires
        mem.wf(),
        list_fits(*inst),
        inst.op == Op::LD1 || inst.op == Op::LD1R || inst.op == Op::LD2 || inst.op == Op::LD3 || inst.op == Op::LD4,
    ensures
        final(ctx)@ == vld_spec(old(ctx)@, mem.segs(), *inst).0,
        match vld_spec(old(ctx)@, mem.segs(), *inst).1 {
            None => r is Ok,
            Some(m) => r is Err && is_mem_fault(r->Err_0, pc, m),
        },
{
    let ops = &inst.operands;
    if ops.len() < 2 {
        return Ok(());
    }
    let regs = get_multi_regs(&ops[0]);
    let addr = match eval_mem_addr(&ops[1], ctx) {
        Some(a) => a,
        None => return Ok(()),
    };
    let ghost segs = mem.segs();
    if inst.op == Op::LD1 || inst.op == Op::LD1R {
        let is_r = inst.op == Op::LD1R;
        let sz: usize = if is_r { get_vec_elem_size(&ops[0]) } else if is_64bit_vector(&ops[0]) { 8 } else { 16 };
        let ghost c1 = ctx@;
        let ghost goal = if is_r { ld1r_from(c1, segs, regs@, 0, addr, sz as nat) } else { ld1_from(c1, segs, regs@, 0, addr, sz as nat) };
        assert(c1 == mem_addr_spec(ops@[1].kind, old(ctx)@).1);
        assert(regs@ == get_multi_regs_spec(ops@[0].kind));
        let mut cur = addr;
        let mut i: usize = 0;
        while i < regs.len()
            invariant
                mem.wf(),
                segs == mem.segs(),
                sz <= 16,
                is_r ==> sz == vec_elem_size_spec(ops@[0].text@) && (sz == 1 || sz == 2 || sz == 4 || sz == 8),
                !is_r ==> sz == (if is_64bit_vector_spec(ops@[0].text@) { 8nat } else { 16nat }),
                is_r ==> cur == addr,
                is_r == (inst.op == Op::LD1R),
                inst.op == Op::LD1 || inst.op == Op::LD1R,
                ops@ == inst.operands@,
                ops@.len() >= 2,
                mem_addr_spec(ops@[1].kind, old(ctx)@) == (Some(addr), c1),
                regs@ == get_multi_regs_spec(ops@[0].kind),
                goal == (if is_r { ld1r_from(c1, segs, regs@, 0, addr, sz as nat) } else { ld1_from(c1, segs, regs@, 0, addr, sz as nat) }),
                0 <= i <= regs.len(),
                goal == (if is_r { ld1r_from(ctx@, segs, regs@, i as int, cur, sz as nat) } else { ld1_from(ctx@, segs, regs@, i as int, cur, sz as nat) }),
            decreases regs.len() - i,
        {
            proof { lemma_read_len(segs, cur as int, sz as nat); }
            let bytes = match mem.read(cur, sz) {
                Ok(b) => b,
                Err(e) => {
                    let w = m_err(pc, e);
                    proof { lemma_mem_fault(pc, e, w, bounds_message(segs, cur, sz as nat)); }
                    assert(goal == (ctx@, Some(bounds_message(segs, cur, sz as nat))));
                    return Err(w);
                },
            };
            if let Some(idx) = v_reg_idx(regs[i]) {
                let img = if is_r {
                    let mut img = [0u8; 16];
                    let mut k: usize = 0;
                    while k < 16
                        invariant
                            0 <= k <= 16,
                            sz == 1 || sz == 2 || sz == 4 || sz == 8,
                            bytes@.len() == sz,
                            forall|j: int| 0 <= j < k ==> img@[j] == bytes@[j % (sz as int)],
                        decreases 16 - k,
                    {
                        img[k] = bytes[k % sz];
                        k = k + 1;
                    }
                    assert(img@ =~= Seq::new(16, |j: int| bytes@[j % (sz as int)]));
                    img
                } else {
                    fill_low(&bytes)
                };
                let ghost before = ctx@;
                ctx.v[idx] = img;
                assert(ctx@.v =~= before.v.update(idx as int, img@));
            }
            if !is_r {
                cur = cur.wrapping_add(sz as u64);
            }
            i = i + 1;
        }
        exec_post(ctx, ops, 0, false);
        Ok(())
    } else {
        let n = regs.len();
        let total = n * 16;
        proof { lemma_read_len(segs, addr as int, total as nat); }
        match mem.read(addr, total) {
            Ok(bytes) => {
                let ghost c1 = ctx@;
                let mut i: usize = 0;
                while i < n
                    invariant
                        n == regs.len(),
                        total == n * 16,
                        bytes@.len() == total,
                        0 <= i <= n,
                        ldn_from(c1, regs@, 0, bytes@) == ldn_from(ctx@, regs@, i as int, bytes@),
                    decreases n - i,
                {
                    if let Some(idx) = v_reg_idx(regs[i]) {
                        let mut img = [0u8; 16];
                        let mut k: usize = 0;
                        while k < 16
                            invariant
                                0 <= k <= 16,
                                i < n,
                                total == n * 16,
                                bytes@.len() == total,
                                forall|j: int| 0 <= j < k ==> img@[j] == bytes@[((j / 4) * (n as int) + i) * 4 + j % 4],
                            decreases 16 - k,
                        {
                            assert(((k / 4) * n + i) * 4 + k % 4 < n * 16) by (nonlinear_arith)
                                requires
                                    k < 16,
                                    i < n,
                            ;
                            img[k] = bytes[((k / 4) * n + i) * 4 + k % 4];
                            k = k + 1;
                        }
                        let ghost ni = n as int;
                        let ghost ii = i as int;
                        assert(img@ =~= Seq::new(16, |j: int| bytes@[((j / 4) * ni + ii) * 4 + j % 4]));
                        let ghost before = ctx@;
                        ctx.v[idx] = img;
                        assert(ctx@.v =~= before.v.update(idx as int, img@));
                    }
                    i = i + 1;
                }
            },
            Err(_) => {},
        }
        exec_post(ctx, ops, total as i64, true);
        Ok(())
    }
}

/// ST1 from register `i` on: each SIMD register of the list stores its `sz` low bytes
/// to the next block (a non-SIMD entry skips its block); a fault stops the walk.
pub open spec fn st1_from(c: CpuView, segs: Seq<SegView>, regs: Seq<Reg>, i: int, addr: u64, sz: nat) -> (Seq<SegView>, Option<Seq<char>>)
    decreases regs.len() - i,
{
    if i < 0 || i >= regs.len() {
        (segs, None)
    } else {
        match v_reg_idx_spec(regs[i]) {
            Some(idx) => {
                let (s2, f) = write_outcome(segs, addr, c.v[idx as int].subrange(0, sz as int));
                if f is Some { (s2, f) } else { st1_from(c, s2, regs, i + 1, crate::interp::wadd(addr, sz as u64), sz) }
            },
            None => st1_from(c, segs, regs, i + 1, crate::interp::wadd(addr, sz as u64), sz),
        }
    }
}

/// ST1: the listed registers go to consecutive blocks of 8 or 16 bytes (by the
/// arrangement); then with a third operand the base may advance (`apply_post`).
pub open spec fn vst_spec(c: CpuView, segs: Seq<SegView>, inst: Instruction) -> (CpuView, Seq<SegView>, Option<Seq<char>>) {
    let ops = inst.operands@;
    if ops.len() < 2 {
        (c, segs, None)
    } else {
        let regs = get_multi_regs_spec(ops[0].kind);
        let (a, c1) = mem_addr_spec(ops[1].kind, c);
        match a {
            None => (c1, segs, None),
            Some(addr) => {
                let (s2, f) = st1_from(c1, segs, regs, 0, addr, if is_64bit_vector_spec(ops[0].text@) { 8 } else { 16 });
                if f is Some { (c1, s2, f) } else { (apply_post(c1, ops, 0, false), s2, None) }
            },
        }
    }
}

pub fn exec_vst(ctx: &mut CpuContext, mem: &mut MemoryManager, inst: &Instruction, pc: u64) -> (r: Result<(), Error>)
    requires
        old(mem).wf(),
    ensures
        final(mem).wf(),
        final(ctx)@ == vst_spec(old(ctx)@, old(mem).segs(), *inst).0,
        final(mem).segs() == vst_spec(old(ctx)@, old(mem).segs(), *inst).1,
        match vst_spec(old(ctx)@, old(mem).segs(), *inst).2 {
            None => r is Ok,
            Some(m) => r is Err && is_mem_fault(r->Err_0, pc, m),
        },
        final(mem).brk_base == old(mem).brk_base,
        final(mem).brk_current == old(mem).brk_current,
        final(mem).brk_mapped_end == old(mem).brk_mapped_end,
        final(mem).mmap_current == old(mem).mmap_current,
{
    let ops = &inst.operands;
    if ops.len() < 2 {
        return Ok(());
    }
    let regs = get_multi_regs(&ops[0]);
    let addr = match eval_mem_addr(&ops[1], ctx) {
        Some(a) => a,
        None => return Ok(()),
    };
    let sz: usize = if is_64bit_vector(&ops[0]) { 8 } else { 16 };
    let ghost c1 = ctx@;
    let ghost goal = st1_from(c1, old(mem).segs(), regs@, 0, addr, sz as nat);
    assert(c1 == mem_addr_spec(ops@[1].kind, old(ctx)@).1);
    assert(regs@ == get_multi_regs_spec(ops@[0].kind));
    let mut cur = addr;
    let mut i: usize = 0;
    while i < regs.len()
        invariant
            mem.wf(),
            ctx@ == c1,
            ops@ == inst.operands@,
            ops@.len() >= 2,
            sz == (if is_64bit_vector_spec(ops@[0].text@) { 8nat } else { 16nat }),
            mem_addr_spec(ops@[1].kind, old(ctx)@) == (Some(addr), c1),
            regs@ == get_multi_regs_spec(ops@[0].kind),
            goal == st1_from(c1, old(mem).segs(), regs@, 0, addr, sz as nat),
            0 <= i <= regs.len(),
            goal == st1_from(c1, mem.segs(), regs@, i as int, cur, sz as nat),
            mem.brk_base == old(mem).brk_base,
            mem.brk_current == old(mem).brk_current,
            mem.brk_mapped_end == old(mem).brk_mapped_end,
            mem.mmap_current == old(mem).mmap_current,
        decreases regs.len() - i,
    {
        if let Some(idx) = v_reg_idx(regs[i]) {
            let data = low_bytes(&ctx.v[idx], sz);
            let ghost before = mem.segs();
            match write_at(mem, cur, data.as_slice(), pc) {
                Ok(()) => {},
                Err(e) => {
                    assert(goal == (mem.segs(), write_outcome(before, cur, data@).1));
                    return Err(e);
                },
            }
        }
        cur = cur.wrapping_add(sz as u64);
        i = i + 1;
    }
    exec_post(ctx, ops, 0, false);
    Ok(())
}

} // verus!
