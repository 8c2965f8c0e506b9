use quantaos::bpf::{BpfContext, BpfError, BpfInsn, BpfInterpreter};


#[test]
fn interpreter_adds_and_exits() {
    // r0 = 5; r0 += 7; exit
    let prog = vec![
        BpfInsn::mov64_imm(0, 5),
        BpfInsn::add64_imm(0, 7),
        BpfInsn::exit(),
    ];
    let mut interp = BpfInterpreter::new();
    let mut ctx = BpfContext::new();
    assert_eq!(interp.run(&prog, &mut ctx), Ok(12));
}

#[test]
fn interpreter_rejects_empty_program() {
    let mut interp = BpfInterpreter::new();
    let mut ctx = BpfContext::new();
    assert_eq!(interp.run(&[], &mut ctx), Err(BpfError::InvalidProgram));
}

#[test]
fn interpreter_stores_into_given_memory() {
    // *(u32 *)(r1 + 0) = 0x01020304; r0 = *(u8 *)(r1 + 3); exit
    let prog = vec![BpfInsn::st_mem(0x00, 1, 0, 0x01020304), BpfInsn::ldx_mem(0x10, 0, 1, 3), BpfInsn::exit()];
    let mut interp = BpfInterpreter::new();
    let mut ctx = BpfContext::new();
    ctx.set_arg(0x4000);
    ctx.set_data(0x4000, vec![0; 6]);
    assert_eq!(interp.run(&prog, &mut ctx), Ok(1));
    assert_eq!(ctx.data, vec![4u8, 3, 2, 1, 0, 0]);
}

#[test]
fn interpreter_uses_stack_through_frame_pointer() {
    // *(u64 *)(r10 - 8) = 77; r0 = *(u64 *)(r10 - 8); exit
    let prog = vec![BpfInsn::st_mem(0x18, 10, -8, 77), BpfInsn::ldx_mem(0x18, 0, 10, -8), BpfInsn::exit()];
    let mut interp = BpfInterpreter::new();
    let mut ctx = BpfContext::new();
    assert_eq!(interp.run(&prog, &mut ctx), Ok(77));
}

#[test]
fn store_then_load_reads_back_cut_to_width() {
    // *(u16 *)(r10 - 2) = r1 (0x1234_5678); r0 = *(u16 *)(r10 - 2); exit
    let prog = vec![
        BpfInsn::mov64_imm(1, 0x1234_5678),
        BpfInsn::stx_mem(0x08, 10, 1, -2),
        BpfInsn::ldx_mem(0x08, 0, 10, -2),
        BpfInsn::exit(),
    ];
    let mut interp = BpfInterpreter::new();
    let mut ctx = BpfContext::new();
    assert_eq!(interp.run(&prog, &mut ctx), Ok(0x5678));
}

#[test]
fn run_answers_at_first_exit() {
    // r0 = 1; exit; r0 = 2; exit
    let prog = vec![BpfInsn::mov64_imm(0, 1), BpfInsn::exit(), BpfInsn::mov64_imm(0, 2), BpfInsn::exit()];
    let mut interp = BpfInterpreter::new();
    let mut ctx = BpfContext::new();
    assert_eq!(interp.run(&prog, &mut ctx), Ok(1));
}

#[test]
fn running_off_the_end_is_invalid() {
    let prog = vec![BpfInsn::mov64_imm(0, 1)];
    let mut interp = BpfInterpreter::new();
    let mut ctx = BpfContext::new();
    assert_eq!(interp.run(&prog, &mut ctx), Err(BpfError::InvalidProgram));
}
