//! One interpreter step: fetching the instruction word, executing a decoded
//! instruction, and the decisions around decoding failures, system calls and thunks.
//!
//! Decoding the word, floating-point arithmetic and the system calls themselves are
//! performed by the caller, which hands the outcome back to these functions.

use vstd::prelude::*;
use crate::cpu::{CpuContext, CpuView};
use crate::decoder::{Condition, Instruction, Op, OperandKind, Reg};
use crate::interp::{
    cond_holds, get_multi_regs, get_multi_regs_spec, is_mem_fault, set_reg_val_spec, v_reg_idx_spec, le_bytes, le_value, lemma_mem_fault, m_err, mem_addr_spec, sub_flags64, wadd,
    wsub, Interpreter,
};
use crate::interp::alu::{
    add_spec, exec_add, exec_movw, exec_muldiv, exec_neg, exec_splat, exec_sub, exec_unary, movw_spec, muldiv_spec,
    muldiv_traps_at, muldiv_would_trap, neg_spec, splat_spec, sub_spec, unary_spec, with_v,
};
use crate::interp::bitops::{
    bic_spec, bitfield_spec, clz_spec, cnt_spec, exec_bic, exec_bitfield, exec_clz, exec_cnt, exec_logic, exec_rbit,
    exec_rev, logic_spec, rbit_spec, rev_spec,
};
use crate::interp::control::{
    branch_spec, cond_compare_spec, csel_spec, exec_branch, exec_cond_compare, exec_csel, exec_sysreg, is_branch,
    sysreg_spec,
};
use crate::interp::scan::{is_64bit_vector_spec, vec_elem_size_spec};
use crate::interp::memops::{
    exec_ldp, exec_load, exec_stp, exec_store, exec_vld, exec_vst, is_load, is_store, ldp_spec, list_fits, load_spec,
    stp_spec, store_spec, vld_spec, vst_spec, le_value_vec, ld1_from, ld1r_from,
};
use crate::interp::simd::{
    across_spec, bsel_spec, elem_move_spec, exec_across, exec_bsel, exec_elem_move, exec_ext, exec_lane_op,
    exec_narrow_widen, exec_pairwise, exec_shrn, exec_zip, ext_spec, lane_op_spec, narrow_widen_spec, pairwise_spec,
    shrn_spec, zip_spec,
};
use crate::memory::{bounded, bounds_message, chunk_write, disjoint, law_read_after_write, lemma_read_len, read_spec, zeros, MemoryManager, SegView};
use crate::text::{concat, hex_text, hex_text_spec};
use crate::{Error, error_text};

verus! {

/// What the caller does after `execute`.
#[derive(Clone, Copy, PartialEq, Eq, Structural, Debug)]
pub enum StepEvent {
    /// The instruction was executed and the program counter moved on.
    Continue,
    /// A supervisor call: the caller handles the system call, then `finish_syscall`.
    Syscall,
    /// A floating-point instruction: the caller performs it, then `advance`.
    Float,
}

/// The outcome of executing one instruction.
pub ghost enum StepOutcome {
    Continue,
    Syscall,
    Float,
    /// A memory fault with the memory error's message.
    MemFault(Seq<char>),
    /// An operation the interpreter does not implement.
    Unimplemented,
}

/// The floating-point operations, which the caller performs.
pub open spec fn is_float_op(op: Op) -> bool {
    op == Op::FCMP || op == Op::FCMPE || op == Op::FADD || op == Op::FSUB || op == Op::FMUL || op == Op::FDIV
        || op == Op::FCVTZS || op == Op::FCVTZU || op == Op::SCVTF || op == Op::UCVTF || op == Op::FNEG
        || op == Op::FABS || op == Op::FSQRT || op == Op::FCVT
}

/// The hints and barriers, which do nothing here.
pub open spec fn is_hint(op: Op) -> bool {
    op == Op::NOP || op == Op::BTI || op == Op::PACIASP || op == Op::AUTIASP || op == Op::PACIBSP || op == Op::AUTIBSP
        || op == Op::DMB || op == Op::DSB || op == Op::ISB
}

/// The effect of a scalar instruction that touches neither memory nor the program
/// counter; `None` for the others.
#[verifier::opaque]
pub open spec fn scalar_effect(c: CpuView, inst: Instruction) -> Option<CpuView> {
    match inst.op {
        Op::ADD | Op::ADDS | Op::CMN => Some(add_spec(c, inst)),
        Op::SUB | Op::SUBS | Op::CMP => Some(sub_spec(c, inst)),
        Op::NEG | Op::NEGS => Some(neg_spec(c, inst)),
        Op::MOV | Op::MOVI | Op::DUP => Some(splat_spec(c, inst, false)),
        Op::MVNI => Some(splat_spec(c, inst, true)),
        Op::MOVK | Op::MOVN | Op::MOVZ => Some(movw_spec(c, inst)),
        Op::UDIV | Op::SDIV | Op::MUL | Op::UMULH | Op::SMULH | Op::MADD | Op::MSUB | Op::MNEG | Op::SMULL
        | Op::UMULL | Op::SMADDL | Op::UMADDL | Op::SMSUBL | Op::UMSUBL => Some(muldiv_spec(c, inst)),
        Op::ADR | Op::ADRP | Op::MVN | Op::SXTW | Op::SXTH | Op::SXTB | Op::UXTW | Op::UXTH | Op::UXTB
        | Op::FMOV => Some(unary_spec(c, inst)),
        Op::CSEL | Op::CSINC | Op::CSINV | Op::CSNEG | Op::CINC | Op::CINV | Op::CNEG | Op::CSET
        | Op::CSETM => Some(csel_spec(c, inst)),
        Op::CCMP | Op::CCMN => Some(cond_compare_spec(c, inst)),
        Op::MRS | Op::MSR => Some(sysreg_spec(c, inst)),
        Op::ORR | Op::ORN | Op::EOR | Op::EON | Op::AND | Op::ANDS | Op::TST => Some(logic_spec(c, inst)),
        Op::BIC | Op::BICS => Some(bic_spec(c, inst)),
        Op::REV | Op::REV16 | Op::REV32 | Op::REV64 => Some(rev_spec(c, inst)),
        Op::CLZ => Some(clz_spec(c, inst)),
        Op::RBIT => Some(rbit_spec(c, inst)),
        Op::SBFIZ | Op::UBFIZ | Op::UBFX | Op::SBFX | Op::UBFM | Op::SBFM | Op::BFM | Op::BFI | Op::BFXIL
        | Op::LSL | Op::LSR | Op::ASR | Op::ROR | Op::EXTR => Some(bitfield_spec(c, inst)),
        Op::NOP | Op::BTI | Op::PACIASP | Op::AUTIASP | Op::PACIBSP | Op::AUTIBSP | Op::DMB | Op::DSB
        | Op::ISB => Some(c),
        _ => None,
    }
}

/// The effect of a vector instruction that touches no memory; `None` for the others.
#[verifier::opaque]
pub open spec fn vector_effect(c: CpuView, inst: Instruction) -> Option<CpuView> {
    match inst.op {
        Op::USHL | Op::SHL | Op::SSHL | Op::CMEQ | Op::CMHI | Op::CMHS | Op::CMGT | Op::CMGE
        | Op::CMTST => Some(lane_op_spec(c, inst)),
        Op::CNT => Some(cnt_spec(c, inst)),
        Op::ADDP | Op::UMINP | Op::UMAXP | Op::SMINP | Op::SMAXP => Some(pairwise_spec(c, inst)),
        Op::EXT => Some(ext_spec(c, inst)),
        Op::BIT | Op::BIF | Op::BSL => Some(bsel_spec(c, inst)),
        Op::SHRN | Op::SHRN2 => Some(shrn_spec(c, inst)),
        Op::ADDV | Op::UADDLV | Op::SADDLV | Op::UMAXV | Op::UMINV | Op::SMAXV | Op::SMINV => Some(across_spec(c, inst)),
        Op::USHR | Op::SSHR | Op::XTN | Op::XTN2 | Op::SXTL | Op::UXTL | Op::SXTL2
        | Op::UXTL2 => Some(narrow_widen_spec(c, inst)),
        Op::ZIP1 | Op::ZIP2 => Some(zip_spec(c, inst)),
        Op::UMOV | Op::SMOV => Some(elem_move_spec(c, inst)),
        _ => None,
    }
}

/// The effect on the registers of an instruction that touches neither memory nor the
/// program counter; `None` for the others.
pub open spec fn reg_effect(c: CpuView, inst: Instruction) -> Option<CpuView> {
    match scalar_effect(c, inst) {
        Some(c2) => Some(c2),
        None => vector_effect(c, inst),
    }
}

/// The state with the program counter at `pc`.
pub open spec fn with_pc(c: CpuView, pc: u64) -> CpuView {
    CpuView { pc, ..c }
}

/// Executing a decoded instruction at `c.pc`: branches set the program counter; loads
/// and stores may fault (the state then stays as the instruction left it, without the
/// program counter moving); SVC and the floating-point operations are handed back
/// untouched; every other implemented operation takes its effect and the program
/// counter moves to the next instruction (`pc + 4`, modulo 2^64); an operation the
/// interpreter does not implement changes nothing.
pub open spec fn execute_spec(c: CpuView, segs: Seq<SegView>, inst: Instruction) -> (CpuView, Seq<SegView>, StepOutcome) {
    let op = inst.op;
    if is_branch(op) {
        (branch_spec(c, inst), segs, StepOutcome::Continue)
    } else if is_mem_op(op) {
        let (c2, s2, f) = mem_effect(c, segs, inst);
        match f {
            None => (with_pc(c2, wadd(c.pc, 4)), s2, StepOutcome::Continue),
            Some(m) => (c2, s2, StepOutcome::MemFault(m)),
        }
    } else if op == Op::SVC {
        (c, segs, StepOutcome::Syscall)
    } else if is_float_op(op) {
        (c, segs, StepOutcome::Float)
    } else {
        match reg_effect(c, inst) {
            Some(c2) => (with_pc(c2, wadd(c.pc, 4)), segs, StepOutcome::Continue),
            None => (c, segs, StepOutcome::Unimplemented),
        }
    }
}

/// The reason given for an operation the interpreter does not implement.
pub open spec fn unimplemented_reason(inst: Instruction) -> Seq<char> {
    "Unimplemented opcode "@ + inst.op_name@
}

/// What `execute` returns for an outcome at `pc`.
pub open spec fn execute_result(r: Result<StepEvent, Error>, out: StepOutcome, pc: u64, inst: Instruction) -> bool {
    match out {
        StepOutcome::Continue => r == Ok::<StepEvent, Error>(StepEvent::Continue),
        StepOutcome::Syscall => r == Ok::<StepEvent, Error>(StepEvent::Syscall),
        StepOutcome::Float => r == Ok::<StepEvent, Error>(StepEvent::Float),
        StepOutcome::MemFault(m) => r is Err && is_mem_fault(r->Err_0, pc, m),
        StepOutcome::Unimplemented => r is Err && (r->Err_0 matches Error::InterpreterError { pc: p, reason }
            && p == pc && reason@ == unimplemented_reason(inst)),
    }
}

/// Whether the instruction is one `execute` can run without dividing the minimum by
/// minus one and with a register list whose byte count fits in `usize`.
pub open spec fn executable(c: CpuView, inst: Instruction) -> bool {
    !muldiv_traps_at(c, inst) && list_fits(inst)
}

fn run_scalar_op(ctx: &mut CpuContext, inst: &Instruction) -> (handled: bool)
    requires
        !muldiv_traps_at(old(ctx)@, *inst),
    ensures
        handled == scalar_effect(old(ctx)@, *inst) is Some,
        handled ==> final(ctx)@ == scalar_effect(old(ctx)@, *inst)->0,
        !handled ==> final(ctx)@ == old(ctx)@,
{
    reveal(scalar_effect);
    match inst.op {
        Op::ADD | Op::ADDS | Op::CMN => exec_add(ctx, inst),
        Op::SUB | Op::SUBS | Op::CMP => exec_sub(ctx, inst),
        Op::NEG | Op::NEGS => exec_neg(ctx, inst),
        Op::MOV | Op::MOVI | Op::DUP => exec_splat(ctx, inst, false),
        Op::MVNI => exec_splat(ctx, inst, true),
        Op::MOVK | Op::MOVN | Op::MOVZ => exec_movw(ctx, inst),
        Op::UDIV | Op::SDIV | Op::MUL | Op::UMULH | Op::SMULH | Op::MADD | Op::MSUB | Op::MNEG | Op::SMULL
        | Op::UMULL | Op::SMADDL | Op::UMADDL | Op::SMSUBL | Op::UMSUBL => exec_muldiv(ctx, inst),
        Op::ADR | Op::ADRP | Op::MVN | Op::SXTW | Op::SXTH | Op::SXTB | Op::UXTW | Op::UXTH | Op::UXTB
        | Op::FMOV => exec_unary(ctx, inst),
        Op::CSEL | Op::CSINC | Op::CSINV | Op::CSNEG | Op::CINC | Op::CINV | Op::CNEG | Op::CSET
        | Op::CSETM => exec_csel(ctx, inst),
        Op::CCMP | Op::CCMN => exec_cond_compare(ctx, inst),
        Op::MRS | Op::MSR => exec_sysreg(ctx, inst),
        Op::ORR | Op::ORN | Op::EOR | Op::EON | Op::AND | Op::ANDS | Op::TST => exec_logic(ctx, inst),
        Op::BIC | Op::BICS => exec_bic(ctx, inst),
        Op::REV | Op::REV16 | Op::REV32 | Op::REV64 => exec_rev(ctx, inst),
        Op::CLZ => exec_clz(ctx, inst),
        Op::RBIT => exec_rbit(ctx, inst),
        Op::SBFIZ | Op::UBFIZ | Op::UBFX | Op::SBFX | Op::UBFM | Op::SBFM | Op::BFM | Op::BFI | Op::BFXIL
        | Op::LSL | Op::LSR | Op::ASR | Op::ROR | Op::EXTR => exec_bitfield(ctx, inst),
        Op::NOP | Op::BTI | Op::PACIASP | Op::AUTIASP | Op::PACIBSP | Op::AUTIBSP | Op::DMB | Op::DSB
        | Op::ISB => {},
        _ => {
            return false;
        },
    }
    true
}

fn run_vector_op(ctx: &mut CpuContext, inst: &Instruction) -> (handled: bool)
    ensures
        handled == vector_effect(old(ctx)@, *inst) is Some,
        handled ==> final(ctx)@ == vector_effect(old(ctx)@, *inst)->0,
        !handled ==> final(ctx)@ == old(ctx)@,
{
    reveal(vector_effect);
    match inst.op {
        Op::USHL | Op::SHL | Op::SSHL | Op::CMEQ | Op::CMHI | Op::CMHS | Op::CMGT | Op::CMGE
        | Op::CMTST => exec_lane_op(ctx, inst),
        Op::CNT => exec_cnt(ctx, inst),
        Op::ADDP | Op::UMINP | Op::UMAXP | Op::SMINP | Op::SMAXP => exec_pairwise(ctx, inst),
        Op::EXT => exec_ext(ctx, inst),
        Op::BIT | Op::BIF | Op::BSL => exec_bsel(ctx, inst),
        Op::SHRN | Op::SHRN2 => exec_shrn(ctx, inst),
        Op::ADDV | Op::UADDLV | Op::SADDLV | Op::UMAXV | Op::UMINV | Op::SMAXV | Op::SMINV => exec_across(ctx, inst),
        Op::USHR | Op::SSHR | Op::XTN | Op::XTN2 | Op::SXTL | Op::UXTL | Op::SXTL2
        | Op::UXTL2 => exec_narrow_widen(ctx, inst),
        Op::ZIP1 | Op::ZIP2 => exec_zip(ctx, inst),
        Op::UMOV | Op::SMOV => exec_elem_move(ctx, inst),
        _ => {
            return false;
        },
    }
    true
}

/// The memory instructions.
pub open spec fn is_mem_op(op: Op) -> bool {
    is_load(op) || is_store(op) || op == Op::LDP || op == Op::STP || op == Op::LD1 || op == Op::LD1R || op == Op::LD2
        || op == Op::LD3 || op == Op::LD4 || op == Op::ST1
}

/// The effect of a memory instruction: registers, segments and a fault's message.
#[verifier::opaque]
pub open spec fn mem_effect(c: CpuView, segs: Seq<SegView>, inst: Instruction) -> (CpuView, Seq<SegView>, Option<Seq<char>>) {
    let op = inst.op;
    if is_load(op) {
        let (c2, f) = load_spec(c, segs, inst);
        (c2, segs, f)
    } else if op == Op::LDP {
        let (c2, f) = ldp_spec(c, segs, inst);
        (c2, segs, f)
    } else if op == Op::LD1 || op == Op::LD1R || op == Op::LD2 || op == Op::LD3 || op == Op::LD4 {
        let (c2, f) = vld_spec(c, segs, inst);
        (c2, segs, f)
    } else if op == Op::STP {
        stp_spec(c, segs, inst)
    } else if op == Op::ST1 {
        vst_spec(c, segs, inst)
    } else {
        store_spec(c, segs, inst)
    }
}

/// `r` reports the fault `f` at `pc` (success when there is none).
pub open spec fn fault_result(r: Result<(), Error>, f: Option<Seq<char>>, pc: u64) -> bool {
    match f {
        None => r is Ok,
        Some(m) => r is Err && is_mem_fault(r->Err_0, pc, m),
    }
}

fn run_load_op(ctx: &mut CpuContext, mem: &MemoryManager, inst: &Instruction, pc: u64) -> (r: Result<(), Error>)
    requires
        mem.wf(),
        list_fits(*inst),
        is_load(inst.op) || inst.op == Op::LDP || inst.op == Op::LD1 || inst.op == Op::LD1R || inst.op == Op::LD2
            || inst.op == Op::LD3 || inst.op == Op::LD4,
    ensures
        final(ctx)@ == mem_effect(old(ctx)@, mem.segs(), *inst).0,
        mem_effect(old(ctx)@, mem.segs(), *inst).1 == mem.segs(),
        fault_result(r, mem_effect(old(ctx)@, mem.segs(), *inst).2, pc),
{
    reveal(mem_effect);
    match inst.op {
        Op::LDP => exec_ldp(ctx, mem, inst, pc),
        Op::LD1 | Op::LD1R | Op::LD2 | Op::LD3 | Op::LD4 => exec_vld(ctx, mem, inst, pc),
        _ => exec_load(ctx, mem, inst, pc),
    }
}

fn run_store_op(ctx: &mut CpuContext, mem: &mut MemoryManager, inst: &Instruction, pc: u64) -> (r: Result<(), Error>)
    requires
        old(mem).wf(),
        is_store(inst.op) || inst.op == Op::STP || inst.op == Op::ST1,
    ensures
        final(mem).wf(),
        final(ctx)@ == mem_effect(old(ctx)@, old(mem).segs(), *inst).0,
        final(mem).segs() == mem_effect(old(ctx)@, old(mem).segs(), *inst).1,
        fault_result(r, mem_effect(old(ctx)@, old(mem).segs(), *inst).2, pc),
        final(mem).brk_base == old(mem).brk_base,
        final(mem).brk_current == old(mem).brk_current,
        final(mem).brk_mapped_end == old(mem).brk_mapped_end,
        final(mem).mmap_current == old(mem).mmap_current,
{
    reveal(mem_effect);
    match inst.op {
        Op::STP => exec_stp(ctx, mem, inst, pc),
        Op::ST1 => exec_vst(ctx, mem, inst, pc),
        _ => exec_store(ctx, mem, inst, pc),
    }
}

impl Interpreter {
    /// Whether `execute` can run the instruction in this state: it is no SDIV of the
    /// minimum by minus one, and its register list's byte count fits in `usize`.
    pub fn can_execute(ctx: &CpuContext, inst: &Instruction) -> (r: bool)
        ensures
            r == executable(ctx@, *inst),
    {
        if muldiv_would_trap(ctx, inst) {
            return false;
        }
        if inst.operands.len() >= 1 {
            let regs = get_multi_regs(&inst.operands[0]);
            regs.len() <= usize::MAX / 16
        } else {
            true
        }
    }

    /// Executes one decoded instruction at the program counter.
    pub fn execute(ctx: &mut CpuContext, mem: &mut MemoryManager, inst: &Instruction) -> (r: Result<StepEvent, Error>)
        requires
            old(mem).wf(),
            executable(old(ctx)@, *inst),
        ensures
            final(mem).wf(),
            final(ctx)@ == execute_spec(old(ctx)@, old(mem).segs(), *inst).0,
            final(mem).segs() == execute_spec(old(ctx)@, old(mem).segs(), *inst).1,
            execute_result(r, execute_spec(old(ctx)@, old(mem).segs(), *inst).2, old(ctx).pc, *inst),
            final(mem).brk_base == old(mem).brk_base,
            final(mem).brk_current == old(mem).brk_current,
            final(mem).brk_mapped_end == old(mem).brk_mapped_end,
            final(mem).mmap_current == old(mem).mmap_current,
    {
        let pc = ctx.pc;
        let next = pc.wrapping_add(4);
        let op = inst.op;
        if op == Op::B || op == Op::B_EQ || op == Op::B_NE || op == Op::B_CS || op == Op::B_CC || op == Op::B_MI
            || op == Op::B_PL || op == Op::B_VS || op == Op::B_VC || op == Op::B_HI || op == Op::B_LS || op == Op::B_GE
            || op == Op::B_LT || op == Op::B_GT || op == Op::B_LE || op == Op::CBZ || op == Op::CBNZ || op == Op::TBZ
            || op == Op::TBNZ || op == Op::BL || op == Op::BLR || op == Op::BR || op == Op::RET {
            exec_branch(ctx, inst);
            return Ok(StepEvent::Continue);
        }
        let is_mem = match op {
            Op::LDR | Op::LDUR | Op::LDAXR | Op::LDXR | Op::LDAR | Op::LDRSW | Op::LDURSW | Op::LDRH | Op::LDURH
            | Op::LDRSH | Op::LDURSH | Op::LDRB | Op::LDURB | Op::LDXRB | Op::LDAXRB | Op::LDARB | Op::LDRSB
            | Op::LDURSB | Op::LDP | Op::LD1 | Op::LD1R | Op::LD2 | Op::LD3 | Op::LD4 | Op::STR | Op::STUR | Op::STLR
            | Op::STRH | Op::STURH | Op::STRB | Op::STURB | Op::STLRB | Op::STLXR | Op::STXR | Op::STLXRB | Op::STXRB
            | Op::STP | Op::ST1 => true,
            _ => false,
        };
        if is_mem {
            let is_store_op = match op {
                Op::STR | Op::STUR | Op::STLR | Op::STRH | Op::STURH | Op::STRB | Op::STURB | Op::STLRB | Op::STLXR
                | Op::STXR | Op::STLXRB | Op::STXRB | Op::STP | Op::ST1 => true,
                _ => false,
            };
            let r = if is_store_op { run_store_op(ctx, mem, inst, pc) } else { run_load_op(ctx, mem, inst, pc) };
            match r {
                Ok(()) => {
                    ctx.pc = next;
                    return Ok(StepEvent::Continue);
                },
                Err(e) => {
                    return Err(e);
                },
            }
        }
        if op == Op::SVC {
            return Ok(StepEvent::Syscall);
        }
        let is_float = match op {
            Op::FCMP | Op::FCMPE | Op::FADD | Op::FSUB | Op::FMUL | Op::FDIV | Op::FCVTZS | Op::FCVTZU | Op::SCVTF
            | Op::UCVTF | Op::FNEG | Op::FABS | Op::FSQRT | Op::FCVT => true,
            _ => false,
        };
        if is_float {
            return Ok(StepEvent::Float);
        }
        if run_scalar_op(ctx, inst) || run_vector_op(ctx, inst) {
            ctx.pc = next;
            return Ok(StepEvent::Continue);
        }
        let reason = concat("Unimplemented opcode ", inst.op_name.as_str());
        Err(Error::InterpreterError { pc, reason })
    }
}

// Fetching and the decisions around an instruction ------------------------------------------

/// What `fetch` found at the program counter.
#[derive(Clone, Copy, PartialEq, Eq, Structural, Debug)]
pub enum Fetched {
    /// The guest has exited; nothing was read.
    Exited,
    /// A `DC ZVA` was carried out; the program counter moved on.
    Handled,
    /// The instruction word, to be decoded.
    Word(u32),
}

/// `DC ZVA, Xt`: zero a 64-byte block.
pub open spec fn is_dc_zva(word: u32) -> bool {
    word & 0xffff_fe00u32 == 0xd50b_7400u32
}

/// A word in the system hint space (or the system instruction space), run as a no-op
/// when it does not decode.
pub open spec fn is_hint_word(word: u32) -> bool {
    word & 0xffff_f01fu32 == 0xd503_201fu32 || word & 0xfff0_0000u32 == 0xd500_0000u32
}

/// Fetching at the program counter: nothing once the guest has exited; else the 4
/// bytes there, little endian (a fault gives the memory error's message). A `DC ZVA`
/// zeroes the 64-byte block holding the address in its register (X31 reads as zero),
/// ignoring any fault, and moves the program counter on.
pub open spec fn fetch_spec(c: CpuView, segs: Seq<SegView>) -> (CpuView, Seq<SegView>, Result<Fetched, Seq<char>>) {
    if c.exited {
        (c, segs, Ok(Fetched::Exited))
    } else {
        match read_spec(segs, c.pc as int, 4) {
            None => (c, segs, Err(bounds_message(segs, c.pc, 4))),
            Some(b) => {
                let w = le_value(b, 4) as u32;
                if is_dc_zva(w) {
                    let addr = c.xreg((w & 0x1fu32) as int) & !63u64;
                    (with_pc(c, wadd(c.pc, 4)), chunk_write(segs, addr as int, zeros(64)).0, Ok(Fetched::Handled))
                } else {
                    (c, segs, Ok(Fetched::Word(w)))
                }
            },
        }
    }
}

/// Law: a hint or barrier (NOP, BTI, the pointer-authentication hints, DMB, DSB, ISB)
/// changes nothing but the program counter, which moves to the next instruction.
pub proof fn law_hint_only_advances(c: CpuView, segs: Seq<SegView>, inst: Instruction)
    requires
        is_hint(inst.op),
    ensures
        execute_spec(c, segs, inst) == (with_pc(c, wadd(c.pc, 4)), segs, StepOutcome::Continue),
{
    reveal(scalar_effect);
}

/// Law: only stores (STR and its variants, STP, ST1) write memory; every other
/// instruction leaves the segments as they were.
pub proof fn law_only_stores_write(c: CpuView, segs: Seq<SegView>, inst: Instruction)
    requires
        !is_store(inst.op),
        inst.op != Op::STP,
        inst.op != Op::ST1,
    ensures
        execute_spec(c, segs, inst).1 == segs,
{
    reveal(mem_effect);
}

/// The eight little-endian bytes of a value read back as that value.
proof fn lemma_le_roundtrip8(v: u64)
    ensures
        le_value(le_bytes(v, 8), 8) == v,
{
    let b = le_bytes(v, 8);
    reveal_with_fuel(le_value, 9);
    let b0 = b[0];
    let b1 = b[1];
    let b2 = b[2];
    let b3 = b[3];
    let b4 = b[4];
    let b5 = b[5];
    let b6 = b[6];
    let b7 = b[7];
    assert(b0 == ((v >> 0u64) & 0xff) as u8 && b1 == ((v >> 8u64) & 0xff) as u8 && b2 == ((v >> 16u64) & 0xff) as u8
        && b3 == ((v >> 24u64) & 0xff) as u8 && b4 == ((v >> 32u64) & 0xff) as u8 && b5 == ((v >> 40u64) & 0xff) as u8
        && b6 == ((v >> 48u64) & 0xff) as u8 && b7 == ((v >> 56u64) & 0xff) as u8);
    let w0 = 0u64 | ((b0 as u64) << 0u64);
    let w1 = w0 | ((b1 as u64) << 8u64);
    let w2 = w1 | ((b2 as u64) << 16u64);
    let w3 = w2 | ((b3 as u64) << 24u64);
    let w4 = w3 | ((b4 as u64) << 32u64);
    let w5 = w4 | ((b5 as u64) << 40u64);
    let w6 = w5 | ((b6 as u64) << 48u64);
    let w7 = w6 | ((b7 as u64) << 56u64);
    assert(le_value(b, 1) == w0);
    assert(le_value(b, 2) == w1);
    assert(le_value(b, 3) == w2);
    assert(le_value(b, 4) == w3);
    assert(le_value(b, 5) == w4);
    assert(le_value(b, 6) == w5);
    assert(le_value(b, 7) == w6);
    assert(le_value(b, 8) == w7);
    assert(w7 == v) by (bit_vector)
        requires
            b0 == ((v >> 0u64) & 0xff) as u8,
            b1 == ((v >> 8u64) & 0xff) as u8,
            b2 == ((v >> 16u64) & 0xff) as u8,
            b3 == ((v >> 24u64) & 0xff) as u8,
            b4 == ((v >> 32u64) & 0xff) as u8,
            b5 == ((v >> 40u64) & 0xff) as u8,
            b6 == ((v >> 48u64) & 0xff) as u8,
            b7 == ((v >> 56u64) & 0xff) as u8,
            w0 == 0u64 | ((b0 as u64) << 0u64),
            w1 == w0 | ((b1 as u64) << 8u64),
            w2 == w1 | ((b2 as u64) << 16u64),
            w3 == w2 | ((b3 as u64) << 24u64),
            w4 == w3 | ((b4 as u64) << 32u64),
            w5 == w4 | ((b5 as u64) << 40u64),
            w6 == w5 | ((b6 as u64) << 48u64),
            w7 == w6 | ((b7 as u64) << 56u64),
    ;
}

/// Addressing does not look at the program counter.
proof fn lemma_mem_addr_ignores_pc(a: OperandKind, c: CpuView, pc: u64)
    ensures
        mem_addr_spec(a, with_pc(c, pc)).0 == mem_addr_spec(a, c).0,
{
}

/// Law: with segments that do not overlap, `LDR Xd, <addr>` right after a successful
/// `STR Xt, <addr>`, through the same addressing operand and one that writes no base
/// register back, loads the value Xt held.
pub proof fn law_load_after_store(c: CpuView, segs: Seq<SegView>, st: Instruction, ld: Instruction, t: u8, d: u8)
    requires
        c.wf(),
        disjoint(segs),
        bounded(segs),
        t < 31 && d < 31,
        st.op == Op::STR,
        st.operands@.len() == 2,
        st.operands@[0].kind == (OperandKind::Reg { reg: Reg::X(t) }),
        ld.op == Op::LDR,
        ld.operands@.len() == 2,
        ld.operands@[0].kind == (OperandKind::Reg { reg: Reg::X(d) }),
        ld.operands@[1].kind == st.operands@[1].kind,
        mem_addr_spec(st.operands@[1].kind, c).0 is Some,
        mem_addr_spec(st.operands@[1].kind, c).1 == c,
        execute_spec(c, segs, st).2 == StepOutcome::Continue,
    ensures
        execute_spec(execute_spec(c, segs, st).0, execute_spec(c, segs, st).1, ld).0.xreg(d as int) == c.xreg(t as int),
        execute_spec(execute_spec(c, segs, st).0, execute_spec(c, segs, st).1, ld).2 == StepOutcome::Continue,
{
    reveal(mem_effect);
    let a = st.operands@[1].kind;
    let val = c.xreg(t as int);
    let addr = mem_addr_spec(a, c).0->0;
    let data = le_bytes(val, 8);
    assert(store_spec(c, segs, st).1 == chunk_write(segs, addr as int, data).0);
    assert(chunk_write(segs, addr as int, data).1);
    let s1 = chunk_write(segs, addr as int, data).0;
    let c1 = execute_spec(c, segs, st).0;
    assert(c1 == with_pc(c, wadd(c.pc, 4)));
    lemma_mem_addr_ignores_pc(a, c, wadd(c.pc, 4));
    law_read_after_write(segs, addr as int, data);
    assert(read_spec(s1, addr as int, 8) == Some(data));
    lemma_le_roundtrip8(val);
}

/// The flags of a 64-bit subtraction order its operands: Z for equal, C for unsigned
/// at least, N equal to V for signed at least.
proof fn lemma_sub_flags64_order(v1: u64, v2: u64)
    ensures
        sub_flags64(v1, v2).1 == (v1 == v2),
        sub_flags64(v1, v2).2 == (v1 >= v2),
        (sub_flags64(v1, v2).0 == sub_flags64(v1, v2).3) == (v1 as i64 >= v2 as i64),
{
    let res = wsub(v1, v2);
    assert(v1 >= v2 ==> res + v2 == v1);
    assert(v1 < v2 ==> res + v2 == v1 + 0x1_0000_0000_0000_0000int);
    assert(res == 0 <==> v1 == v2) by (bit_vector)
        requires
            v1 >= v2 ==> res + v2 == v1,
            v1 < v2 ==> res + v2 == v1 + 0x1_0000_0000_0000_0000int,
    ;
    assert((((res >> 63u64) == 1u64) == (((v1 ^ v2) & (v1 ^ res) & 0x8000_0000_0000_0000u64) != 0))
        == ((v1 ^ 0x8000_0000_0000_0000u64) >= (v2 ^ 0x8000_0000_0000_0000u64))) by (bit_vector)
        requires
            v1 >= v2 ==> res + v2 == v1,
            v1 < v2 ==> res + v2 == v1 + 0x1_0000_0000_0000_0000int,
    ;
    assert(((res as i64) < 0) == ((res >> 63u64) == 1u64)) by (bit_vector);
    assert(((v1 as i64) >= (v2 as i64)) == ((v1 ^ 0x8000_0000_0000_0000u64) >= (v2 ^ 0x8000_0000_0000_0000u64))) by (bit_vector);
}

/// Law: after `CMP Xn, Xm` the conditions compare the two registers: EQ holds exactly
/// when they are equal, CS (HS) and HI when Xn is at least, or above, Xm unsigned, GE and
/// GT when it is at least, or above, signed; no general register changes and the program
/// counter moves on.
pub proof fn law_compare_then_condition(c: CpuView, segs: Seq<SegView>, inst: Instruction, n: u8, m: u8)
    requires
        c.wf(),
        n < 31 && m < 31,
        inst.op == Op::CMP,
        inst.operands@.len() == 2,
        inst.operands@[0].kind == (OperandKind::Reg { reg: Reg::X(n) }),
        inst.operands@[1].kind == (OperandKind::Reg { reg: Reg::X(m) }),
    ensures
        ({
            let c2 = execute_spec(c, segs, inst).0;
            let a = c.xreg(n as int);
            let b = c.xreg(m as int);
            &&& cond_holds(Condition::EQ, c2) == (a == b)
            &&& cond_holds(Condition::CS, c2) == (a >= b)
            &&& cond_holds(Condition::HI, c2) == (a > b)
            &&& cond_holds(Condition::GE, c2) == (a as i64 >= b as i64)
            &&& cond_holds(Condition::GT, c2) == (a as i64 > b as i64)
            &&& c2.x == c.x
            &&& c2.pc == wadd(c.pc, 4)
        }),
{
    reveal(scalar_effect);
    let a = c.xreg(n as int);
    let b = c.xreg(m as int);
    let f = sub_flags64(a, b);
    lemma_sub_flags64_order(a, b);
    crate::cpu::law_flags_write_read(c, f.0, f.1, f.2, f.3);
    assert((a as i64 == b as i64) == (a == b)) by (bit_vector);
}

/// Law: `SUB Xd, Xd, Xm` undoes `ADD Xd, Xn, Xm` (when Xd is not Xm): Xd ends up holding
/// what Xn held, modulo 2^64 arithmetic, and the other general registers are as before
/// the pair except Xd.
pub proof fn law_sub_undoes_add(c: CpuView, segs: Seq<SegView>, add: Instruction, sub: Instruction, d: u8, n: u8, m: u8)
    requires
        c.wf(),
        d < 31 && n < 31 && m < 31,
        d != m,
        add.op == Op::ADD,
        add.operands@.len() == 3,
        add.operands@[0].kind == (OperandKind::Reg { reg: Reg::X(d) }),
        add.operands@[1].kind == (OperandKind::Reg { reg: Reg::X(n) }),
        add.operands@[2].kind == (OperandKind::Reg { reg: Reg::X(m) }),
        sub.op == Op::SUB,
        sub.operands@.len() == 3,
        sub.operands@[0].kind == (OperandKind::Reg { reg: Reg::X(d) }),
        sub.operands@[1].kind == (OperandKind::Reg { reg: Reg::X(d) }),
        sub.operands@[2].kind == (OperandKind::Reg { reg: Reg::X(m) }),
    ensures
        ({
            let c2 = execute_spec(execute_spec(c, segs, add).0, execute_spec(c, segs, add).1, sub).0;
            &&& c2.xreg(d as int) == c.xreg(n as int)
            &&& forall|r: int| 0 <= r < 31 && r != d ==> c2.xreg(r) == c.xreg(r)
            &&& c2.pstate == c.pstate
        }),
{
    reveal(scalar_effect);
    let a = c.xreg(n as int);
    let b = c.xreg(m as int);
    assert(wsub(wadd(a, b), b) == a);
}

/// Writing a register never moves the program counter.
broadcast proof fn lemma_set_reg_keeps_pc(reg: Reg, val: u64, c: CpuView)
    ensures
        (#[trigger] set_reg_val_spec(reg, val, c)).pc == c.pc,
{
}

/// Computing an address (with its base write-back) never moves the program counter.
broadcast proof fn lemma_addr_keeps_pc(a: OperandKind, c: CpuView)
    ensures
        (#[trigger] mem_addr_spec(a, c)).1.pc == c.pc,
{
    broadcast use lemma_set_reg_keeps_pc;
}

proof fn lemma_ld1_keeps_pc(c: CpuView, segs: Seq<SegView>, regs: Seq<Reg>, i: int, addr: u64, sz: nat)
    ensures
        ld1_from(c, segs, regs, i, addr, sz).0.pc == c.pc,
    decreases regs.len() - i,
{
    if 0 <= i < regs.len() {
        if let Some(b) = read_spec(segs, addr as int, sz) {
            let c2 = match v_reg_idx_spec(regs[i]) {
                Some(idx) => with_v(c, idx as int, b + zeros((16 - sz) as nat)),
                None => c,
            };
            lemma_ld1_keeps_pc(c2, segs, regs, i + 1, wadd(addr, sz as u64), sz);
        }
    }
}

proof fn lemma_ld1r_keeps_pc(c: CpuView, segs: Seq<SegView>, regs: Seq<Reg>, i: int, addr: u64, esz: nat)
    ensures
        ld1r_from(c, segs, regs, i, addr, esz).0.pc == c.pc,
    decreases regs.len() - i,
{
    if 0 <= i < regs.len() {
        if let Some(b) = read_spec(segs, addr as int, esz) {
            let c2 = match v_reg_idx_spec(regs[i]) {
                Some(idx) => with_v(c, idx as int, Seq::new(16, |k: int| b[k % (esz as int)])),
                None => c,
            };
            lemma_ld1r_keeps_pc(c2, segs, regs, i + 1, addr, esz);
        }
    }
}

/// Law: an instruction that faults on memory leaves the program counter where it was,
/// so the faulting instruction is the one reported.
pub proof fn law_fault_keeps_pc(c: CpuView, segs: Seq<SegView>, inst: Instruction)
    requires
        execute_spec(c, segs, inst).2 is MemFault,
    ensures
        execute_spec(c, segs, inst).0.pc == c.pc,
{
    broadcast use {lemma_set_reg_keeps_pc, lemma_addr_keeps_pc};
    reveal(mem_effect);
    let op = inst.op;
    let ops = inst.operands@;
    if is_load(op) {
        assert(load_spec(c, segs, inst).0.pc == c.pc);
    } else if op == Op::LDP {
        assert(ldp_spec(c, segs, inst).0.pc == c.pc);
    } else if op == Op::LD1 || op == Op::LD1R || op == Op::LD2 || op == Op::LD3 || op == Op::LD4 {
        if ops.len() >= 2 {
            let regs = get_multi_regs_spec(ops[0].kind);
            let (a, c1) = mem_addr_spec(ops[1].kind, c);
            if let Some(addr) = a {
                lemma_ld1_keeps_pc(c1, segs, regs, 0, addr, if is_64bit_vector_spec(ops[0].text@) { 8 } else { 16 });
                lemma_ld1r_keeps_pc(c1, segs, regs, 0, addr, vec_elem_size_spec(ops[0].text@) as nat);
            }
        }
        assert(vld_spec(c, segs, inst).0.pc == c.pc);
    } else if op == Op::STP {
        assert(stp_spec(c, segs, inst).0.pc == c.pc);
    } else if op == Op::ST1 {
        assert(vst_spec(c, segs, inst).0.pc == c.pc);
    } else {
        assert(store_spec(c, segs, inst).0.pc == c.pc);
    }
}

/// Law: once the guest has exited, fetching does nothing: no memory is read or written
/// and the register state stays as it is.
pub proof fn law_exited_is_idle(c: CpuView, segs: Seq<SegView>)
    requires
        c.exited,
    ensures
        fetch_spec(c, segs) == (c, segs, Ok::<Fetched, Seq<char>>(Fetched::Exited)),
{
}

impl Interpreter {
    /// Fetches the instruction word at the program counter.
    pub fn fetch(ctx: &mut CpuContext, mem: &mut MemoryManager) -> (r: Result<Fetched, Error>)
        requires
            old(mem).wf(),
        ensures
            final(mem).wf(),
            final(ctx)@ == fetch_spec(old(ctx)@, old(mem).segs()).0,
            final(mem).segs() == fetch_spec(old(ctx)@, old(mem).segs()).1,
            match fetch_spec(old(ctx)@, old(mem).segs()).2 {
                Ok(f) => r == Ok::<Fetched, Error>(f),
                Err(m) => r is Err && is_mem_fault(r->Err_0, old(ctx).pc, m),
            },
            final(mem).brk_base == old(mem).brk_base,
            final(mem).brk_current == old(mem).brk_current,
            final(mem).brk_mapped_end == old(mem).brk_mapped_end,
            final(mem).mmap_current == old(mem).mmap_current,
    {
        if ctx.exited {
            return Ok(Fetched::Exited);
        }
        let pc = ctx.pc;
        proof { lemma_read_len(mem.segs(), pc as int, 4); }
        let bytes = match mem.read(pc, 4) {
            Ok(b) => b,
            Err(e) => {
                let w = m_err(pc, e);
                proof { lemma_mem_fault(pc, e, w, bounds_message(mem.segs(), pc, 4)); }
                return Err(w);
            },
        };
        let raw = le_value_vec(&bytes, 4);
        let word = raw as u32;
        if word & 0xffff_fe00u32 == 0xd50b_7400u32 {
            let rt = (word & 0x1f) as usize;
            let addr = ctx.get_x(rt) & !63u64;
            let zero_block = vec![0u8; 64];
            assert(zero_block@ =~= zeros(64));
            let _ = mem.write(addr, zero_block.as_slice());
            ctx.pc = pc.wrapping_add(4);
            return Ok(Fetched::Handled);
        }
        Ok(Fetched::Word(word))
    }

    /// After a word failed to decode with error `e`: a hint-space word is skipped (the
    /// program counter moves on); any other is a decode error at the program counter
    /// whose reason is the text of `e`.
    pub fn decode_failed(ctx: &mut CpuContext, word: u32, e: &Error) -> (r: Result<(), Error>)
        ensures
            is_hint_word(word) ==> r is Ok && final(ctx)@ == with_pc(old(ctx)@, wadd(old(ctx).pc, 4)),
            !is_hint_word(word) ==> final(ctx)@ == old(ctx)@ && r is Err && (r->Err_0 matches Error::DecodeError { pc, reason }
                && pc == old(ctx).pc && reason@ == error_text(*e)),
    {
        if word & 0xffff_f01fu32 == 0xd503_201fu32 || word & 0xfff0_0000u32 == 0xd500_0000u32 {
            ctx.pc = ctx.pc.wrapping_add(4);
            return Ok(());
        }
        Err(Error::DecodeError { pc: ctx.pc, reason: e.message() })
    }

    /// The step after fetching `word`, given what decoding it gave: a word that did not
    /// decode is handled as `decode_failed` says (memory untouched); a decoded
    /// instruction is executed.
    pub fn step_decoded(ctx: &mut CpuContext, mem: &mut MemoryManager, word: u32, decoded: &Result<Instruction, Error>) -> (r: Result<StepEvent, Error>)
        requires
            old(mem).wf(),
            decoded matches Ok(inst) ==> executable(old(ctx)@, *inst),
        ensures
            final(mem).wf(),
            match decoded {
                Err(e) => final(mem)@ == old(mem)@ && if is_hint_word(word) {
                    r == Ok::<StepEvent, Error>(StepEvent::Continue) && final(ctx)@ == with_pc(old(ctx)@, wadd(old(ctx).pc, 4))
                } else {
                    final(ctx)@ == old(ctx)@ && r is Err && (r->Err_0 matches Error::DecodeError { pc, reason }
                        && pc == old(ctx).pc && reason@ == error_text(*e))
                },
                Ok(inst) => {
                    &&& final(ctx)@ == execute_spec(old(ctx)@, old(mem).segs(), *inst).0
                    &&& final(mem).segs() == execute_spec(old(ctx)@, old(mem).segs(), *inst).1
                    &&& execute_result(r, execute_spec(old(ctx)@, old(mem).segs(), *inst).2, old(ctx).pc, *inst)
                    &&& final(mem).brk_base == old(mem).brk_base
                    &&& final(mem).brk_current == old(mem).brk_current
                    &&& final(mem).brk_mapped_end == old(mem).brk_mapped_end
                    &&& final(mem).mmap_current == old(mem).mmap_current
                },
            },
    {
        match decoded {
            Err(e) => match Self::decode_failed(ctx, word, e) {
                Ok(()) => Ok(StepEvent::Continue),
                Err(err) => Err(err),
            },
            Ok(inst) => Self::execute(ctx, mem, inst),
        }
    }

    /// After the system call of an SVC at `pc` was handled: `false` once the guest has
    /// exited; otherwise the program counter moves to `pc + 4` and the step continues.
    pub fn finish_syscall(ctx: &mut CpuContext, pc: u64) -> (r: bool)
        ensures
            r == !old(ctx).exited,
            r ==> final(ctx)@ == with_pc(old(ctx)@, wadd(pc, 4)),
            !r ==> final(ctx)@ == old(ctx)@,
    {
        if ctx.exited {
            return false;
        }
        ctx.pc = pc.wrapping_add(4);
        true
    }

    /// Moves the program counter to the next instruction.
    pub fn advance(ctx: &mut CpuContext)
        ensures
            final(ctx)@ == with_pc(old(ctx)@, wadd(old(ctx).pc, 4)),
    {
        ctx.pc = ctx.pc.wrapping_add(4);
    }

    /// After a host thunk ran for the call at `pc`: its error becomes an interpreter
    /// error; once the guest has exited the step reports `false`; a thunk that left the
    /// program counter at `pc` returns to the link register.
    pub fn after_thunk(ctx: &mut CpuContext, pc: u64, result: Result<(), String>) -> (r: Result<bool, Error>)
        ensures
            match result {
                Err(m) => final(ctx)@ == old(ctx)@ && r is Err && (r->Err_0 matches Error::InterpreterError { pc: p, reason }
                    && p == pc && reason@ == "Thunk execution error at PC "@ + hex_text_spec(pc as nat) + ": "@ + m@),
                Ok(()) => if old(ctx).exited {
                    r == Ok::<bool, Error>(false) && final(ctx)@ == old(ctx)@
                } else if old(ctx).pc == pc {
                    r == Ok::<bool, Error>(true) && final(ctx)@ == with_pc(old(ctx)@, old(ctx)@.xreg(30))
                } else {
                    r == Ok::<bool, Error>(true) && final(ctx)@ == old(ctx)@
                },
            },
    {
        match result {
            Err(m) => {
                let mut reason = concat("Thunk execution error at PC ", hex_text(pc).as_str());
                reason.push_str(": ");
                reason.push_str(m.as_str());
                Err(Error::InterpreterError { pc, reason })
            },
            Ok(()) => {
                if ctx.exited {
                    return Ok(false);
                }
                if ctx.pc == pc {
                    ctx.pc = ctx.get_x(30);
                }
                Ok(true)
            },
        }
    }
}

} // verus!
