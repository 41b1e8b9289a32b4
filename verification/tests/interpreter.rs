use maarch64::cpu::CpuContext;
use maarch64::decoder::{Condition, Imm, Instruction, Op, Operand, OperandKind, Reg, Shift};
use maarch64::interp::step::{Fetched, StepEvent};
use maarch64::interp::{eval_cond, get_operand_val, get_reg_val, is_w_reg, m_err, reg_idx, reg_size, set_reg_val, v_reg_idx, Interpreter};
use maarch64::memory::MemoryManager;
use maarch64::Error;

fn reg(r: Reg) -> Operand {
    Operand { kind: OperandKind::Reg { reg: r }, text: Vec::new() }
}

fn imm(v: u64) -> Operand {
    Operand { kind: OperandKind::Imm64 { imm: Imm::Unsigned(v), shift: None }, text: Vec::new() }
}

fn label(v: u64) -> Operand {
    Operand { kind: OperandKind::Label(Imm::Unsigned(v)), text: Vec::new() }
}

fn mem_reg(r: Reg) -> Operand {
    Operand { kind: OperandKind::MemReg(r), text: Vec::new() }
}

fn inst(op: Op, name: &str, operands: Vec<Operand>) -> Instruction {
    Instruction { op, op_name: name.to_string(), operands }
}

fn setup() -> (CpuContext, MemoryManager) {
    let mut ctx = CpuContext::new();
    ctx.pc = 0x40_0000;
    let mut mem = MemoryManager::new();
    mem.map_anonymous(0x40_0000, 0x1000).unwrap();
    mem.map_anonymous(0x80_0000, 0x1000).unwrap();
    (ctx, mem)
}

#[test]
fn register_helpers() {
    assert_eq!(reg_idx(Reg::X(3)), Some(3));
    assert_eq!(reg_idx(Reg::W(7)), Some(7));
    assert_eq!(reg_idx(Reg::Xzr), None);
    assert_eq!(v_reg_idx(Reg::Q(4)), Some(4));
    assert_eq!(v_reg_idx(Reg::X(4)), None);
    assert!(is_w_reg(Reg::W(1)));
    assert!(is_w_reg(Reg::Wzr));
    assert!(!is_w_reg(Reg::X(1)));
    assert_eq!(reg_size(Reg::B(0)), 1);
    assert_eq!(reg_size(Reg::D(0)), 8);
    assert_eq!(reg_size(Reg::Q(0)), 16);
}

#[test]
fn w_register_write_zero_extends() {
    let mut ctx = CpuContext::new();
    ctx.set_x(2, u64::MAX);
    set_reg_val(Reg::W(2), 0x1_2345_6789, &mut ctx);
    assert_eq!(ctx.get_x(2), 0x2345_6789);
    assert_eq!(get_reg_val(Reg::W(2), &ctx), 0x2345_6789);
    ctx.sp = 0x7000;
    assert_eq!(get_reg_val(Reg::Sp, &ctx), 0x7000);
    assert_eq!(get_reg_val(Reg::Xzr, &ctx), 0);
}

#[test]
fn shifted_register_operand() {
    let mut ctx = CpuContext::new();
    ctx.set_x(1, 3);
    let op = Operand { kind: OperandKind::ShiftReg { reg: Reg::X(1), shift: Shift::LSL(4) }, text: Vec::new() };
    assert_eq!(get_operand_val(&op, &ctx), 48);
}

#[test]
fn conditions_follow_the_flags() {
    let mut ctx = CpuContext::new();
    ctx.set_nzcv(false, true, true, false);
    assert!(eval_cond(&Condition::EQ, &ctx));
    assert!(!eval_cond(&Condition::NE, &ctx));
    assert!(eval_cond(&Condition::CS, &ctx));
    assert!(!eval_cond(&Condition::HI, &ctx));
    assert!(eval_cond(&Condition::LS, &ctx));
    assert!(eval_cond(&Condition::GE, &ctx));
    assert!(!eval_cond(&Condition::GT, &ctx));
    assert!(eval_cond(&Condition::LE, &ctx));
    assert!(eval_cond(&Condition::AL, &ctx));
}

#[test]
fn add_immediate() {
    let (mut ctx, mut mem) = setup();
    ctx.set_x(1, 10);
    let i = inst(Op::ADD, "ADD", vec![reg(Reg::X(0)), reg(Reg::X(1)), imm(5)]);
    assert_eq!(Interpreter::execute(&mut ctx, &mut mem, &i).unwrap(), StepEvent::Continue);
    assert_eq!(ctx.get_x(0), 15);
    assert_eq!(ctx.pc, 0x40_0004);
}

#[test]
fn subs_sets_zero_and_carry() {
    let (mut ctx, mut mem) = setup();
    ctx.set_x(1, 7);
    ctx.set_x(2, 7);
    let i = inst(Op::SUBS, "SUBS", vec![reg(Reg::W(0)), reg(Reg::W(1)), reg(Reg::W(2))]);
    Interpreter::execute(&mut ctx, &mut mem, &i).unwrap();
    assert_eq!(ctx.get_x(0), 0);
    assert!(ctx.get_z());
    assert!(ctx.get_c());
    assert!(!ctx.get_n());
    assert!(!ctx.get_v());
}

#[test]
fn cmp_borrow_clears_carry() {
    let (mut ctx, mut mem) = setup();
    ctx.set_x(1, 1);
    let i = inst(Op::CMP, "CMP", vec![reg(Reg::X(1)), imm(2)]);
    Interpreter::execute(&mut ctx, &mut mem, &i).unwrap();
    assert!(ctx.get_n());
    assert!(!ctx.get_c());
    assert!(!ctx.get_z());
    assert_eq!(ctx.get_x(1), 1);
}

#[test]
fn movz_and_movk_build_a_constant() {
    let (mut ctx, mut mem) = setup();
    let shifted = Operand { kind: OperandKind::Imm32 { imm: Imm::Unsigned(0xbeef), shift: Some(Shift::LSL(16)) }, text: Vec::new() };
    let i = inst(Op::MOVZ, "MOVZ", vec![reg(Reg::X(3)), imm(0x1234)]);
    Interpreter::execute(&mut ctx, &mut mem, &i).unwrap();
    let k = inst(Op::MOVK, "MOVK", vec![reg(Reg::X(3)), shifted]);
    Interpreter::execute(&mut ctx, &mut mem, &k).unwrap();
    assert_eq!(ctx.get_x(3), 0xbeef_1234);
}

#[test]
fn branch_and_link() {
    let (mut ctx, mut mem) = setup();
    let i = inst(Op::BL, "BL", vec![label(0x40_0100)]);
    Interpreter::execute(&mut ctx, &mut mem, &i).unwrap();
    assert_eq!(ctx.pc, 0x40_0100);
    assert_eq!(ctx.get_x(30), 0x40_0004);
    let r = inst(Op::RET, "RET", vec![]);
    Interpreter::execute(&mut ctx, &mut mem, &r).unwrap();
    assert_eq!(ctx.pc, 0x40_0004);
}

#[test]
fn compare_and_branch() {
    let (mut ctx, mut mem) = setup();
    let i = inst(Op::CBZ, "CBZ", vec![reg(Reg::X(0)), label(0x40_0200)]);
    Interpreter::execute(&mut ctx, &mut mem, &i).unwrap();
    assert_eq!(ctx.pc, 0x40_0200);
    ctx.set_x(0, 1);
    Interpreter::execute(&mut ctx, &mut mem, &i).unwrap();
    assert_eq!(ctx.pc, 0x40_0204);
}

#[test]
fn conditional_branch_not_taken() {
    let (mut ctx, mut mem) = setup();
    ctx.set_nzcv(false, false, false, false);
    let i = inst(Op::B_EQ, "B.EQ", vec![label(0x40_0800)]);
    Interpreter::execute(&mut ctx, &mut mem, &i).unwrap();
    assert_eq!(ctx.pc, 0x40_0004);
}

#[test]
fn store_then_load() {
    let (mut ctx, mut mem) = setup();
    ctx.set_x(1, 0x1122_3344_5566_7788);
    ctx.set_x(2, 0x80_0010);
    let st = inst(Op::STR, "STR", vec![reg(Reg::X(1)), mem_reg(Reg::X(2))]);
    Interpreter::execute(&mut ctx, &mut mem, &st).unwrap();
    assert_eq!(mem.read(0x80_0010, 8).unwrap(), vec![0x88, 0x77, 0x66, 0x55, 0x44, 0x33, 0x22, 0x11]);
    let ld = inst(Op::LDRB, "LDRB", vec![reg(Reg::W(3)), mem_reg(Reg::X(2))]);
    Interpreter::execute(&mut ctx, &mut mem, &ld).unwrap();
    assert_eq!(ctx.get_x(3), 0x88);
    let ldr = inst(Op::LDR, "LDR", vec![reg(Reg::X(4)), mem_reg(Reg::X(2))]);
    Interpreter::execute(&mut ctx, &mut mem, &ldr).unwrap();
    assert_eq!(ctx.get_x(4), 0x1122_3344_5566_7788);
    assert_eq!(ctx.pc, 0x40_000c);
}

#[test]
fn load_from_unmapped_memory_faults() {
    let (mut ctx, mut mem) = setup();
    ctx.set_x(2, 0x1000);
    let ld = inst(Op::LDR, "LDR", vec![reg(Reg::X(4)), mem_reg(Reg::X(2))]);
    match Interpreter::execute(&mut ctx, &mut mem, &ld).unwrap_err() {
        Error::InterpreterError { pc, reason } => {
            assert_eq!(pc, 0x40_0000);
            assert_eq!(
                reason,
                "Memory error at PC 0x400000: Memory error: Address 0x1000 (len 8) out of mapped bounds. Segments: [0x400000..0x401000], [0x800000..0x801000]"
            );
        },
        other => panic!("unexpected {:?}", other),
    }
    assert_eq!(ctx.pc, 0x40_0000);
}

#[test]
fn hint_only_advances() {
    let (mut ctx, mut mem) = setup();
    ctx.set_x(9, 99);
    let before = ctx.clone();
    let i = inst(Op::NOP, "NOP", vec![]);
    Interpreter::execute(&mut ctx, &mut mem, &i).unwrap();
    assert_eq!(ctx.pc, before.pc + 4);
    assert_eq!(ctx.x, before.x);
    assert_eq!(ctx.pstate, before.pstate);
}

#[test]
fn svc_and_float_are_handed_back() {
    let (mut ctx, mut mem) = setup();
    let svc = inst(Op::SVC, "SVC", vec![imm(0)]);
    assert_eq!(Interpreter::execute(&mut ctx, &mut mem, &svc).unwrap(), StepEvent::Syscall);
    assert_eq!(ctx.pc, 0x40_0000);
    let fadd = inst(Op::FADD, "FADD", vec![reg(Reg::D(0)), reg(Reg::D(1)), reg(Reg::D(2))]);
    assert_eq!(Interpreter::execute(&mut ctx, &mut mem, &fadd).unwrap(), StepEvent::Float);
    assert_eq!(ctx.pc, 0x40_0000);
    assert!(Interpreter::finish_syscall(&mut ctx, 0x40_0000));
    assert_eq!(ctx.pc, 0x40_0004);
    Interpreter::advance(&mut ctx);
    assert_eq!(ctx.pc, 0x40_0008);
}

#[test]
fn unimplemented_operation_is_an_error() {
    let (mut ctx, mut mem) = setup();
    let i = inst(Op::Other, "FMADD", vec![]);
    match Interpreter::execute(&mut ctx, &mut mem, &i).unwrap_err() {
        Error::InterpreterError { pc, reason } => {
            assert_eq!(pc, 0x40_0000);
            assert_eq!(reason, "Unimplemented opcode FMADD");
        },
        other => panic!("unexpected {:?}", other),
    }
}

#[test]
fn fetch_reads_little_endian_words() {
    let (mut ctx, mut mem) = setup();
    mem.write(0x40_0000, &[0x1f, 0x20, 0x03, 0xd5]).unwrap();
    assert_eq!(Interpreter::fetch(&mut ctx, &mut mem).unwrap(), Fetched::Word(0xd503_201f));
    ctx.exited = true;
    assert_eq!(Interpreter::fetch(&mut ctx, &mut mem).unwrap(), Fetched::Exited);
}

#[test]
fn fetch_outside_memory_faults() {
    let (mut ctx, mut mem) = setup();
    ctx.pc = 0x9000;
    match Interpreter::fetch(&mut ctx, &mut mem).unwrap_err() {
        Error::InterpreterError { pc, reason } => {
            assert_eq!(pc, 0x9000);
            assert!(reason.starts_with("Memory error at PC 0x9000: Memory error: Address 0x9000 (len 4)"));
        },
        other => panic!("unexpected {:?}", other),
    }
}

#[test]
fn dc_zva_zeroes_a_block() {
    let (mut ctx, mut mem) = setup();
    mem.write(0x80_0040, &[0xff; 64]).unwrap();
    ctx.set_x(3, 0x80_0055);
    // DC ZVA, X3
    mem.write(0x40_0000, &0xd50b_7423u32.to_le_bytes()).unwrap();
    assert_eq!(Interpreter::fetch(&mut ctx, &mut mem).unwrap(), Fetched::Handled);
    assert_eq!(mem.read(0x80_0040, 64).unwrap(), vec![0u8; 64]);
    assert_eq!(ctx.pc, 0x40_0004);
}

#[test]
fn undecodable_words() {
    let mut ctx = CpuContext::new();
    ctx.pc = 0x1000;
    let e = Error::LoadError("x".to_string());
    Interpreter::decode_failed(&mut ctx, 0xd503_201f, &e).unwrap();
    assert_eq!(ctx.pc, 0x1004);
    match Interpreter::decode_failed(&mut ctx, 0xffff_ffff, &e).unwrap_err() {
        Error::DecodeError { pc, reason } => {
            assert_eq!(pc, 0x1004);
            assert_eq!(reason, "Failed to load binary: x");
        },
        other => panic!("unexpected {:?}", other),
    }
}

#[test]
fn thunk_results() {
    let mut ctx = CpuContext::new();
    ctx.pc = 0x5000;
    ctx.set_x(30, 0x6000);
    assert!(Interpreter::after_thunk(&mut ctx, 0x5000, Ok(())).unwrap());
    assert_eq!(ctx.pc, 0x6000);
    match Interpreter::after_thunk(&mut ctx, 0x5000, Err("boom".to_string())).unwrap_err() {
        Error::InterpreterError { pc, reason } => {
            assert_eq!(pc, 0x5000);
            assert_eq!(reason, "Thunk execution error at PC 0x5000: boom");
        },
        other => panic!("unexpected {:?}", other),
    }
    ctx.exited = true;
    assert!(!Interpreter::after_thunk(&mut ctx, 0x6000, Ok(())).unwrap());
}

#[test]
fn memory_error_wrapping() {
    match m_err(0xabc, Error::MemoryError("bad".to_string())) {
        Error::InterpreterError { pc, reason } => {
            assert_eq!(pc, 0xabc);
            assert_eq!(reason, "Memory error at PC 0xabc: Memory error: bad");
        },
        other => panic!("unexpected {:?}", other),
    }
}

#[test]
fn step_after_decoding() {
    let (mut ctx, mut mem) = setup();
    let undecodable: maarch64::Result<Instruction> = Err(Error::DecodeError { pc: 0x40_0000, reason: "Unallocated(4194304)".to_string() });
    match Interpreter::step_decoded(&mut ctx, &mut mem, 0x0000_0000, &undecodable).unwrap_err() {
        Error::DecodeError { pc, reason } => {
            assert_eq!(pc, 0x40_0000);
            assert_eq!(reason, "Instruction decode error at PC 0x400000: Unallocated(4194304)");
        },
        other => panic!("unexpected {:?}", other),
    }
    assert_eq!(Interpreter::step_decoded(&mut ctx, &mut mem, 0xd503_201f, &undecodable).unwrap(), StepEvent::Continue);
    assert_eq!(ctx.pc, 0x40_0004);
    ctx.set_x(1, 2);
    let add = Ok(inst(Op::ADD, "ADD", vec![reg(Reg::X(0)), reg(Reg::X(1)), reg(Reg::X(1))]));
    assert!(Interpreter::can_execute(&ctx, add.as_ref().unwrap()));
    assert_eq!(Interpreter::step_decoded(&mut ctx, &mut mem, 0x8b01_0020, &add).unwrap(), StepEvent::Continue);
    assert_eq!(ctx.get_x(0), 4);
    assert_eq!(ctx.pc, 0x40_0008);
}

#[test]
fn sdiv_of_minimum_by_minus_one_cannot_execute() {
    let (mut ctx, _mem) = setup();
    ctx.set_x(1, i64::MIN as u64);
    ctx.set_x(2, u64::MAX);
    let div = inst(Op::SDIV, "SDIV", vec![reg(Reg::X(0)), reg(Reg::X(1)), reg(Reg::X(2))]);
    assert!(!Interpreter::can_execute(&ctx, &div));
    ctx.set_x(2, 2);
    assert!(Interpreter::can_execute(&ctx, &div));
}

#[test]
fn loads_leave_memory_alone() {
    let (mut ctx, mut mem) = setup();
    mem.write(0x80_0000, &[1, 2, 3, 4, 5, 6, 7, 8]).unwrap();
    ctx.set_x(2, 0x80_0000);
    let before: Vec<Vec<u8>> = mem.segments.iter().map(|s| s.data.clone()).collect();
    let ld = inst(Op::LDR, "LDR", vec![reg(Reg::X(4)), mem_reg(Reg::X(2))]);
    Interpreter::execute(&mut ctx, &mut mem, &ld).unwrap();
    let after: Vec<Vec<u8>> = mem.segments.iter().map(|s| s.data.clone()).collect();
    assert_eq!(before, after);
    assert_eq!(ctx.get_x(4), 0x0807_0605_0403_0201);
}

#[test]
fn store_then_load_with_offset() {
    let (mut ctx, mut mem) = setup();
    ctx.set_x(1, 0xfeed_face_cafe_beef);
    ctx.set_x(2, 0x80_0100);
    let at = Operand { kind: OperandKind::MemOffset { reg: Reg::X(2), offset: Imm::Signed(-16) }, text: Vec::new() };
    let st = inst(Op::STR, "STR", vec![reg(Reg::X(1)), at.clone()]);
    Interpreter::execute(&mut ctx, &mut mem, &st).unwrap();
    let ld = inst(Op::LDR, "LDR", vec![reg(Reg::X(3)), at]);
    Interpreter::execute(&mut ctx, &mut mem, &ld).unwrap();
    assert_eq!(ctx.get_x(3), 0xfeed_face_cafe_beef);
    assert_eq!(ctx.get_x(2), 0x80_0100);
}

#[test]
fn compare_then_conditions() {
    let (mut ctx, mut mem) = setup();
    ctx.set_x(1, (-5i64) as u64);
    ctx.set_x(2, 3);
    let cmp = inst(Op::CMP, "CMP", vec![reg(Reg::X(1)), reg(Reg::X(2))]);
    Interpreter::execute(&mut ctx, &mut mem, &cmp).unwrap();
    assert!(!eval_cond(&Condition::EQ, &ctx));
    assert!(eval_cond(&Condition::HI, &ctx));
    assert!(eval_cond(&Condition::CS, &ctx));
    assert!(!eval_cond(&Condition::GE, &ctx));
    assert!(eval_cond(&Condition::LT, &ctx));
    assert_eq!(ctx.pc, 0x40_0004);
}

#[test]
fn sub_undoes_add() {
    let (mut ctx, mut mem) = setup();
    ctx.set_x(1, u64::MAX - 1);
    ctx.set_x(2, 5);
    let add = inst(Op::ADD, "ADD", vec![reg(Reg::X(0)), reg(Reg::X(1)), reg(Reg::X(2))]);
    let sub = inst(Op::SUB, "SUB", vec![reg(Reg::X(0)), reg(Reg::X(0)), reg(Reg::X(2))]);
    Interpreter::execute(&mut ctx, &mut mem, &add).unwrap();
    assert_eq!(ctx.get_x(0), 3);
    Interpreter::execute(&mut ctx, &mut mem, &sub).unwrap();
    assert_eq!(ctx.get_x(0), u64::MAX - 1);
}
