use maarch64::cpu::CpuContext;

#[test]
fn new_context_is_zeroed() {
    let ctx = CpuContext::new();
    for r in 0..31 {
        assert_eq!(ctx.get_x(r), 0);
    }
    assert_eq!(ctx.pc, 0);
    assert_eq!(ctx.sp, 0);
    assert_eq!(ctx.pstate, 0);
    assert!(!ctx.exited);
    assert_eq!(ctx.exit_code, 0);
    assert!(!ctx.get_n() && !ctx.get_z() && !ctx.get_c() && !ctx.get_v());
    let d = CpuContext::default();
    assert_eq!(d.x, ctx.x);
    assert_eq!(d.v, ctx.v);
}

#[test]
fn register_reads_back_what_was_written() {
    let mut ctx = CpuContext::new();
    ctx.set_x(5, 0xdead_beef_0000_0001);
    ctx.set_x(30, 42);
    assert_eq!(ctx.get_x(5), 0xdead_beef_0000_0001);
    assert_eq!(ctx.get_x(30), 42);
    assert_eq!(ctx.get_x(4), 0);
    assert_eq!(ctx.get_x(6), 0);
}

#[test]
fn zero_register_ignores_writes() {
    let mut ctx = CpuContext::new();
    ctx.set_x(31, 7);
    ctx.set_x(40, 9);
    assert_eq!(ctx.get_x(31), 0);
    assert_eq!(ctx.get_x(40), 0);
    assert_eq!(ctx.x, [0u64; 31]);
}

#[test]
fn flags_read_back_and_low_bits_stay() {
    let mut ctx = CpuContext::new();
    ctx.pstate = 0x0000_03c5;
    ctx.set_nzcv(true, false, true, false);
    assert!(ctx.get_n());
    assert!(!ctx.get_z());
    assert!(ctx.get_c());
    assert!(!ctx.get_v());
    assert_eq!(ctx.pstate, 0xa000_03c5);
    ctx.set_nzcv(false, true, false, true);
    assert_eq!(ctx.pstate, 0x5000_03c5);
    assert!(!ctx.get_n() && ctx.get_z() && !ctx.get_c() && ctx.get_v());
}
