//! The decoded form of an AArch64 instruction, as plain values.
//!
//! Decoding an instruction word is done outside this library; it hands the
//! interpreter an [`Instruction`] built from the decoder's output.

use vstd::prelude::*;
use crate::Error;

verus! {

/// Instruction decoder front end.
pub struct Decoder;

impl Decoder {
    /// The error reported when the word at `address` does not decode; `detail` is the
    /// decoder's description of the failure.
    pub fn decode_error(address: u64, detail: String) -> (e: Error)
        ensures
            e matches Error::DecodeError { pc, reason } && pc == address && reason@ == detail@,
    {
        Error::DecodeError { pc: address, reason: detail }
    }
}

/// A register operand.
#[derive(Clone, Copy, PartialEq, Eq, Structural, Debug)]
pub enum Reg {
    /// 32-bit view W0..W30 of a general register.
    W(u8),
    Wzr,
    Wsp,
    /// General register X0..X30.
    X(u8),
    Xzr,
    Sp,
    /// Whole SIMD register V0..V31.
    V(u8),
    /// 8-bit view B0..B31 of a SIMD register.
    B(u8),
    /// 16-bit view H0..H31.
    H(u8),
    /// 32-bit view S0..S31.
    S(u8),
    /// 64-bit view D0..D31.
    D(u8),
    /// 128-bit view Q0..Q31.
    Q(u8),
    /// SVE vector register Z0..Z31.
    Z(u8),
    /// SVE predicate register P0..P31.
    P(u8),
    Zt0,
}

/// An immediate as the decoder gives it.
#[derive(Clone, Copy, PartialEq, Eq, Structural, Debug)]
pub enum Imm {
    Signed(i64),
    Unsigned(u64),
}

/// A shift or extension applied to a register or an immediate.
#[allow(non_camel_case_types)]
#[derive(Clone, Copy, PartialEq, Eq, Structural, Debug)]
pub enum Shift {
    LSL(u32),
    LSR(u32),
    ASR(u32),
    ROR(u32),
    UXTW(u32),
    SXTW(u32),
    SXTX(u32),
    UXTX(u32),
    SXTB(u32),
    SXTH(u32),
    UXTH(u32),
    UXTB(u32),
    MSL(u32),
}

/// A condition code.
#[derive(Clone, Copy, PartialEq, Eq, Structural, Debug)]
pub enum Condition {
    EQ,
    NE,
    CS,
    CC,
    MI,
    PL,
    VS,
    VC,
    HI,
    LS,
    GE,
    LT,
    GT,
    LE,
    AL,
    NV,
}

/// The shape of an operand and the values it carries.
#[derive(Clone, Debug)]
pub enum OperandKind {
    Imm32 { imm: Imm, shift: Option<Shift> },
    Imm64 { imm: Imm, shift: Option<Shift> },
    ShiftReg { reg: Reg, shift: Shift },
    QualReg { reg: Reg },
    Reg { reg: Reg },
    /// A register list; the registers present, in order.
    MultiReg { regs: Vec<Reg> },
    /// A system register; its name is in the operand's text.
    SysReg,
    MemReg(Reg),
    MemOffset { reg: Reg, offset: Imm },
    MemPreIdx { reg: Reg, imm: Imm },
    MemPostIdxReg(Reg, Reg),
    MemPostIdxImm { reg: Reg, imm: Imm },
    MemExt { base: Reg, index: Reg, shift: Option<Shift> },
    Label(Imm),
    Cond(Condition),
    /// Any other operand (floating immediates, SME tiles, indexed elements, names).
    Other,
}

/// An operand: its shape and the decoder's debug rendering of it (as bytes).
#[derive(Clone, Debug)]
pub struct Operand {
    pub kind: OperandKind,
    pub text: Vec<u8>,
}

/// The operations the interpreter distinguishes.
#[allow(non_camel_case_types)]
#[derive(Clone, Copy, PartialEq, Eq, Structural, Debug)]
pub enum Op {
    ADD, ADDP, ADDS, ADDV, ADR, ADRP, AND, ANDS, ASR, AUTIASP, AUTIBSP, B, BFI, BFM, BFXIL,
    BIC, BICS, BIF, BIT, BL, BLR, BR, BSL, BTI, B_CC, B_CS, B_EQ, B_GE, B_GT, B_HI, B_LE,
    B_LS, B_LT, B_MI, B_NE, B_PL, B_VC, B_VS, CBNZ, CBZ, CCMN, CCMP, CINC, CINV, CLZ, CMEQ,
    CMGE, CMGT, CMHI, CMHS, CMN, CMP, CMTST, CNEG, CNT, CSEL, CSET, CSETM, CSINC, CSINV,
    CSNEG, DMB, DSB, DUP, EON, EOR, EXT, EXTR, FABS, FADD, FCMP, FCMPE, FCVT, FCVTZS, FCVTZU,
    FDIV, FMOV, FMUL, FNEG, FSQRT, FSUB, ISB, LD1, LD1R, LD2, LD3, LD4, LDAR, LDARB, LDAXR,
    LDAXRB, LDP, LDR, LDRB, LDRH, LDRSB, LDRSH, LDRSW, LDUR, LDURB, LDURH, LDURSB, LDURSH,
    LDURSW, LDXR, LDXRB, LSL, LSR, MADD, MNEG, MOV, MOVI, MOVK, MOVN, MOVZ, MRS, MSR, MSUB,
    MUL, MVN, MVNI, NEG, NEGS, NOP, ORN, ORR, PACIASP, PACIBSP, RBIT, RET, REV, REV16, REV32,
    REV64, ROR, SADDLV, SBFIZ, SBFM, SBFX, SCVTF, SDIV, SHL, SHRN, SHRN2, SMADDL, SMAXP,
    SMAXV, SMINP, SMINV, SMOV, SMSUBL, SMULH, SMULL, SSHL, SSHR, ST1, STLR, STLRB, STLXR,
    STLXRB, STP, STR, STRB, STRH, STUR, STURB, STURH, STXR, STXRB, SUB, SUBS, SVC, SXTB,
    SXTH, SXTL, SXTL2, SXTW, TBNZ, TBZ, TST, UADDLV, UBFIZ, UBFM, UBFX, UCVTF, UDIV, UMADDL,
    UMAXP, UMAXV, UMINP, UMINV, UMOV, UMSUBL, UMULH, UMULL, USHL, USHR, UXTB, UXTH, UXTL,
    UXTL2, UXTW, XTN, XTN2, ZIP1, ZIP2,
    /// An operation the interpreter does not implement.
    Other,
}

/// A decoded instruction: the operation, its name as the decoder renders it, and its operands.
#[derive(Clone, Debug)]
pub struct Instruction {
    pub op: Op,
    pub op_name: String,
    pub operands: Vec<Operand>,
}

/// Register numbers are in range: W/X below 31, the others below 32.
pub open spec fn reg_wf(r: Reg) -> bool {
    match r {
        Reg::W(n) | Reg::X(n) => n < 31,
        Reg::V(n) | Reg::B(n) | Reg::H(n) | Reg::S(n) | Reg::D(n) | Reg::Q(n) | Reg::Z(n) | Reg::P(n) => n < 32,
        _ => true,
    }
}

} // verus!
