use quantaos::bpf::helpers::HelperState;
use quantaos::bpf::{BpfError, BpfInsn, BpfProgType, BpfProgram, BpfVerifier};

#[test]
fn verifier_rejects_jump_to_itself() {
    let v = BpfVerifier::new(BpfProgType::SocketFilter);
    let prog = vec![BpfInsn::ja(-1), BpfInsn::exit()];
    assert!(v.verify(&prog).is_err());
}

#[test]
fn verifier_rejects_backward_jump() {
    let v = BpfVerifier::new(BpfProgType::SocketFilter);
    let prog = vec![
        BpfInsn::mov64_imm(0, 0),
        BpfInsn::add64_imm(0, 1),
        BpfInsn::ja(-2),
        BpfInsn::exit(),
    ];
    assert_eq!(v.verify(&prog), Err(BpfError::InvalidProgram));
}

#[test]
fn verifier_accepts_forward_jump() {
    let v = BpfVerifier::new(BpfProgType::SocketFilter);
    let prog = vec![
        BpfInsn::mov64_imm(0, 1),
        BpfInsn::ja(1),
        BpfInsn::mov64_imm(0, 2),
        BpfInsn::exit(),
    ];
    assert_eq!(v.verify(&prog), Ok(()));
}

#[test]
fn verifier_rejects_jump_past_end() {
    let v = BpfVerifier::new(BpfProgType::SocketFilter);
    let prog = vec![BpfInsn::ja(5), BpfInsn::exit()];
    assert!(v.verify(&prog).is_err());
}

#[test]
fn helper_clock_persists_across_runs() {
    // r0 = ktime_get_ns(); exit
    let mut prog = BpfProgram::new(1, BpfProgType::SocketFilter, vec![BpfInsn::call(5), BpfInsn::exit()]);
    let mut helpers = HelperState::new();
    assert_eq!(prog.run(&mut helpers, 0, &mut Vec::new()), 0);
    assert_eq!(prog.run(&mut helpers, 0, &mut Vec::new()), 1000);
    assert_eq!(prog.run(&mut helpers, 0, &mut Vec::new()), 2000);
    assert_eq!(helpers.ktime_ns, 3000);
    assert_eq!(prog.run_count(), 3);
}

#[test]
fn helper_generator_advances_across_runs() {
    let mut prog = BpfProgram::new(2, BpfProgType::SocketFilter, vec![BpfInsn::call(7), BpfInsn::exit()]);
    let mut helpers = HelperState::new();
    let a = prog.run(&mut helpers, 0, &mut Vec::new());
    let b = prog.run(&mut helpers, 0, &mut Vec::new());
    assert_ne!(a, b);
    assert_ne!(helpers.prng_state, HelperState::new().prng_state);
}

#[test]
fn program_reads_and_writes_its_context() {
    // r0 = *(u8 *)(r1 + 0); *(u8 *)(r1 + 1) = 0xAB; r0 += *(u16 *)(r1 + 2); exit
    let prog = vec![
        BpfInsn::ldx_mem(0x10, 0, 1, 0),
        BpfInsn::st_mem(0x10, 1, 1, 0xAB),
        BpfInsn::ldx_mem(0x08, 2, 1, 2),
        BpfInsn::new(0x0F, 0, 2, 0, 0),
        BpfInsn::exit(),
    ];
    let mut p = BpfProgram::new(3, BpfProgType::SocketFilter, prog);
    let mut helpers = HelperState::new();
    let mut ctx = vec![5u8, 0, 0x34, 0x12];
    assert_eq!(p.run(&mut helpers, 0x8000, &mut ctx), 5 + 0x1234);
    assert_eq!(ctx, vec![5u8, 0xAB, 0x34, 0x12]);
}

#[test]
fn access_past_the_context_fails() {
    // r0 = *(u32 *)(r1 + 2) on a 4-byte context: out of bounds, so the run answers 0
    let prog = vec![BpfInsn::mov64_imm(0, 9), BpfInsn::ldx_mem(0x00, 0, 1, 2), BpfInsn::exit()];
    let mut p = BpfProgram::new(4, BpfProgType::SocketFilter, prog);
    let mut helpers = HelperState::new();
    let mut ctx = vec![1u8, 2, 3, 4];
    assert_eq!(p.run(&mut helpers, 0x8000, &mut ctx), 0);
    assert_eq!(ctx, vec![1u8, 2, 3, 4]);
}
