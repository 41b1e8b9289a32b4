//! What individual instructions compute, stated arithmetically over the register and
//! memory values they read, independent of how the semantics are written.

use vstd::prelude::*;
use vstd::arithmetic::power2::pow2;
use crate::cpu::CpuView;
use crate::decoder::{Condition, Instruction, Op, OperandKind, Reg};
use crate::interp::{cond_holds, le_value, mem_addr_spec, operand_val_spec, wadd};
use crate::interp::step::{execute_spec, scalar_effect, mem_effect, StepOutcome};
use crate::memory::{read_spec, SegView};

verus! {

/// 2^64.
pub open spec fn two64() -> int {
    0x1_0000_0000_0000_0000int
}

/// The unsigned value of four little-endian bytes.
pub open spec fn word_of(b: Seq<u8>) -> int {
    b[0] + 256 * b[1] + 65536 * b[2] + 16777216 * b[3]
}

/// Four little-endian bytes read back as a word, and that word widened with its top bit
/// copied into bits 32..63.
proof fn lemma_sign_extend_word(b: Seq<u8>)
    requires
        b.len() == 4,
    ensures
        le_value(b, 4) as int == word_of(b),
        (((le_value(b, 4) as u32) as i32) as i64) as u64 as int
            == word_of(b) + if b[3] >= 128 { 0xffff_ffff_0000_0000int } else { 0 },
{
    reveal_with_fuel(le_value, 5);
    let b0 = b[0];
    let b1 = b[1];
    let b2 = b[2];
    let b3 = b[3];
    let w0 = 0u64 | ((b0 as u64) << 0u64);
    let w1 = w0 | ((b1 as u64) << 8u64);
    let w2 = w1 | ((b2 as u64) << 16u64);
    let w3 = w2 | ((b3 as u64) << 24u64);
    assert(le_value(b, 1) == w0);
    assert(le_value(b, 2) == w1);
    assert(le_value(b, 3) == w2);
    assert(le_value(b, 4) == w3);
    assert(w3 == b0 + 256 * b1 + 65536 * b2 + 16777216 * b3
        && ((((w3 as u32) as i32) as i64) as u64 == if b3 >= 128u8 { (w3 + 0xffff_ffff_0000_0000u64) as u64 } else { w3 })) by (bit_vector)
        requires
            w0 == 0u64 | ((b0 as u64) << 0u64),
            w1 == w0 | ((b1 as u64) << 8u64),
            w2 == w1 | ((b2 as u64) << 16u64),
            w3 == w2 | ((b3 as u64) << 24u64),
    ;
}

/// Law: `LDRSW Xd, <addr>` (and LDURSW), through an addressing operand that writes no
/// base back, loads the word at the address and sign-extends it: Xd is the word's
/// unsigned value, plus 2^64 - 2^32 when its top bit (bit 31) is set. The instruction
/// completes and moves the program counter on.
pub proof fn law_ldrsw_sign_extends(c: CpuView, segs: Seq<SegView>, inst: Instruction, d: u8, b: Seq<u8>)
    requires
        c.wf(),
        d < 31,
        inst.op == Op::LDRSW || inst.op == Op::LDURSW,
        inst.operands@.len() == 2,
        inst.operands@[0].kind == (OperandKind::Reg { reg: Reg::X(d) }),
        mem_addr_spec(inst.operands@[1].kind, c).0 is Some,
        mem_addr_spec(inst.operands@[1].kind, c).1 == c,
        read_spec(segs, mem_addr_spec(inst.operands@[1].kind, c).0->0 as int, 4) == Some(b),
    ensures
        execute_spec(c, segs, inst).2 == StepOutcome::Continue,
        execute_spec(c, segs, inst).0.xreg(d as int) as int
            == word_of(b) + if b[3] >= 128 { 0xffff_ffff_0000_0000int } else { 0 },
        execute_spec(c, segs, inst).0.pc == wadd(c.pc, 4),
{
    reveal(mem_effect);
    crate::memory::lemma_read_len(segs, mem_addr_spec(inst.operands@[1].kind, c).0->0 as int, 4);
    lemma_sign_extend_word(b);
}

/// Law: `MADD Xd, Xn, Xm, Xa` writes (Xa + Xn * Xm) mod 2^64 and `MSUB` writes
/// (Xa - Xn * Xm) mod 2^64; nothing else but the program counter changes.
pub proof fn law_multiply_accumulate(c: CpuView, segs: Seq<SegView>, inst: Instruction, d: u8, n: u8, m: u8, a: u8)
    requires
        c.wf(),
        d < 31 && n < 31 && m < 31 && a < 31,
        inst.op == Op::MADD || inst.op == Op::MSUB,
        inst.operands@.len() == 4,
        inst.operands@[0].kind == (OperandKind::Reg { reg: Reg::X(d) }),
        inst.operands@[1].kind == (OperandKind::Reg { reg: Reg::X(n) }),
        inst.operands@[2].kind == (OperandKind::Reg { reg: Reg::X(m) }),
        inst.operands@[3].kind == (OperandKind::Reg { reg: Reg::X(a) }),
    ensures
        ({
            let p = c.xreg(n as int) as int * c.xreg(m as int) as int;
            let r = execute_spec(c, segs, inst).0.xreg(d as int) as int;
            &&& inst.op == Op::MADD ==> r == (c.xreg(a as int) as int + p) % two64()
            &&& inst.op == Op::MSUB ==> r == (c.xreg(a as int) as int - p) % two64()
        }),
        execute_spec(c, segs, inst).0.pc == wadd(c.pc, 4),
{
    reveal(scalar_effect);
    let x1 = c.xreg(n as int);
    let x2 = c.xreg(m as int);
    let x3 = c.xreg(a as int) as int;
    let p = x1 as int * x2 as int;
    let q = p % two64();
    assert(crate::interp::wmul(x1, x2) as int == q);
    vstd::arithmetic::div_mod::lemma_small_mod(x3 as nat, two64() as nat);
    if inst.op == Op::MADD {
        vstd::arithmetic::div_mod::lemma_add_mod_noop(x3, p, two64());
        if x3 + q >= two64() {
            vstd::arithmetic::div_mod::lemma_mod_sub_multiples_vanish(x3 + q, two64());
            vstd::arithmetic::div_mod::lemma_small_mod((x3 + q - two64()) as nat, two64() as nat);
        } else {
            vstd::arithmetic::div_mod::lemma_small_mod((x3 + q) as nat, two64() as nat);
        }
    } else {
        vstd::arithmetic::div_mod::lemma_sub_mod_noop(x3, p, two64());
        if x3 - q < 0 {
            vstd::arithmetic::div_mod::lemma_mod_multiples_vanish(1, x3 - q, two64());
            vstd::arithmetic::div_mod::lemma_small_mod((x3 - q + two64()) as nat, two64() as nat);
        } else {
            vstd::arithmetic::div_mod::lemma_small_mod((x3 - q) as nat, two64() as nat);
        }
    }
}

/// Law: `LSR Xd, Xn, <s>` is a logical shift: Xd is Xn divided by 2^(s mod 64), rounding
/// down, so the top bits of the result are zero whatever bit 63 of Xn was.
pub proof fn law_lsr_divides(c: CpuView, segs: Seq<SegView>, inst: Instruction, d: u8, n: u8)
    requires
        c.wf(),
        d < 31 && n < 31,
        inst.op == Op::LSR,
        inst.operands@.len() == 3,
        inst.operands@[0].kind == (OperandKind::Reg { reg: Reg::X(d) }),
        inst.operands@[1].kind == (OperandKind::Reg { reg: Reg::X(n) }),
    ensures
        execute_spec(c, segs, inst).0.xreg(d as int) as nat
            == c.xreg(n as int) as nat / pow2(((operand_val_spec(inst.operands@[2].kind, c) as u32) % 64) as nat),
        execute_spec(c, segs, inst).0.pc == wadd(c.pc, 4),
{
    reveal(scalar_effect);
    let v = c.xreg(n as int);
    let s = (operand_val_spec(inst.operands@[2].kind, c) as u32) % 64;
    assert(v >> s == v >> (s as u64)) by (bit_vector)
        requires
            s < 64,
    ;
    vstd::bits::lemma_u64_shr_is_div(v, s as u64);
}

/// Law: `TBZ Xt, #b, <target>` branches exactly when bit (b mod 64) of Xt is zero, and
/// `TBNZ` exactly when it is one; otherwise the program counter moves to `pc + 4`. The
/// bit is the remainder of Xt divided by 2^(b mod 64), modulo 2.
pub proof fn law_test_bit_branch(c: CpuView, segs: Seq<SegView>, inst: Instruction, t: u8)
    requires
        c.wf(),
        t < 31,
        inst.op == Op::TBZ || inst.op == Op::TBNZ,
        inst.operands@.len() == 3,
        inst.operands@[0].kind == (OperandKind::Reg { reg: Reg::X(t) }),
    ensures
        ({
            let v = c.xreg(t as int);
            let bit = (v as nat / pow2((operand_val_spec(inst.operands@[1].kind, c) % 64) as nat)) % 2;
            let taken = if inst.op == Op::TBZ { bit == 0 } else { bit == 1 };
            execute_spec(c, segs, inst).0.pc == if taken {
                operand_val_spec(inst.operands@[2].kind, c)
            } else {
                wadd(c.pc, 4)
            }
        }),
        execute_spec(c, segs, inst).0.x == c.x,
{
    let v = c.xreg(t as int);
    let s = operand_val_spec(inst.operands@[1].kind, c) % 64;
    assert(((v & (1u64 << s)) != 0) == ((v >> s) % 2 == 1)) by (bit_vector)
        requires
            s < 64,
    ;
    vstd::bits::lemma_u64_shr_is_div(v, s);
}

/// Law: the conditional selects `CSEL`, `CSINC`, `CSINV`, `CSNEG Xd, Xn, Xm, cond`
/// write Xn when the condition holds; otherwise Xm, (Xm + 1) mod 2^64, 2^64 - 1 - Xm
/// (its bitwise complement), and (2^64 - Xm) mod 2^64 (its negation) respectively.
pub proof fn law_conditional_select(c: CpuView, segs: Seq<SegView>, inst: Instruction, d: u8, n: u8, m: u8, cond: Condition)
    requires
        c.wf(),
        d < 31 && n < 31 && m < 31,
        inst.op == Op::CSEL || inst.op == Op::CSINC || inst.op == Op::CSINV || inst.op == Op::CSNEG,
        inst.operands@.len() == 4,
        inst.operands@[0].kind == (OperandKind::Reg { reg: Reg::X(d) }),
        inst.operands@[1].kind == (OperandKind::Reg { reg: Reg::X(n) }),
        inst.operands@[2].kind == (OperandKind::Reg { reg: Reg::X(m) }),
        inst.operands@[3].kind == OperandKind::Cond(cond),
    ensures
        ({
            let r = execute_spec(c, segs, inst).0.xreg(d as int) as int;
            let vm = c.xreg(m as int) as int;
            if cond_holds(cond, c) {
                r == c.xreg(n as int) as int
            } else if inst.op == Op::CSEL {
                r == vm
            } else if inst.op == Op::CSINC {
                r == (vm + 1) % two64()
            } else if inst.op == Op::CSINV {
                r == two64() - 1 - vm
            } else {
                r == (two64() - vm) % two64()
            }
        }),
        execute_spec(c, segs, inst).0.pc == wadd(c.pc, 4),
{
    reveal(scalar_effect);
    let vm = c.xreg(m as int);
    assert(!vm as int == 0xffff_ffff_ffff_ffffint - vm as int) by (bit_vector);
    if vm as int + 1 == two64() {
        vstd::arithmetic::div_mod::lemma_mod_self_0(two64());
    } else {
        vstd::arithmetic::div_mod::lemma_small_mod((vm + 1) as nat, two64() as nat);
    }
    if vm == 0 {
        vstd::arithmetic::div_mod::lemma_mod_self_0(two64());
    } else {
        vstd::arithmetic::div_mod::lemma_small_mod((two64() - vm) as nat, two64() as nat);
    }
}

} // verus!
