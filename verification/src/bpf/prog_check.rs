//! Static checks a BPF program must pass before it is loaded.
//!
//! A program passes when it is non-empty and not too long, ends in an
//! exit, every instruction names valid registers (and never writes the
//! read-only frame pointer R10) and jumps forward inside the program (so
//! that no program can loop), every
//! instruction reachable from the first lies inside the program, and a
//! straight-line walk over the instructions finds every helper call's
//! arguments initialised.
use vstd::prelude::*;
use vstd::set_lib::{set_int_range, lemma_int_range, lemma_len_subset};
use super::{BpfInsn, BpfError, insn_dst, insn_src};
use super::{BPF_LD, BPF_LDX, BPF_ST, BPF_STX, BPF_ALU, BPF_JMP, BPF_JMP32, BPF_ALU64};
use super::{BPF_EXIT, BPF_CALL, BPF_JA};
use super::programs::BpfProgType;

verus! {

/// Maximum BPF instructions
pub const BPF_MAXINSNS: usize = 1_000_000;

/// Maximum verified states
pub const BPF_MAX_STATES: usize = 65536;

/// Register state as the checker tracks it.
#[derive(Clone, Copy, Debug, PartialEq, Eq, Structural)]
pub enum RegState {
    /// Not initialized
    Uninitialized,
    /// Known scalar value
    Known,
    /// Unknown value
    Unknown,
    /// Pointer to map value
    PtrToMapValue,
    /// Pointer to stack
    PtrToStack,
    /// Pointer to context
    PtrToCtx,
    /// Pointer to packet
    PtrToPacket,
    /// Pointer to packet end
    PtrToPacketEnd,
}

// -----------------------------------------------------------------------------
// What the checks decide
// -----------------------------------------------------------------------------

/// Whether an instruction is a jump that carries a target (not a call or exit).
pub open spec fn has_jump_target(i: BpfInsn) -> bool {
    let class = i.code & 0x07u8;
    let op = i.code & 0xF0u8;
    (class == BPF_JMP || class == BPF_JMP32) && op != BPF_CALL && op != BPF_EXIT
}

/// The outcome of checking one instruction at index `idx` of a program of `len`.
pub open spec fn check_insn_spec(i: BpfInsn, idx: int, len: int) -> Result<(), BpfError> {
    let class = i.code & 0x07u8;
    if insn_dst(i) > 10 || insn_src(i) > 10 {
        Err(BpfError::InvalidInstruction)
    } else if (class == BPF_ALU || class == BPF_ALU64 || class == BPF_LDX || class == BPF_LD) && insn_dst(i) == 10 {
        Err(BpfError::InvalidInstruction)
    } else if has_jump_target(i) && !(idx < idx + i.off + 1 < len) {
        Err(BpfError::InvalidProgram)
    } else {
        Ok(())
    }
}

/// The outcome of checking the instructions from index `i` on, stopping at the first failure.
pub open spec fn check_all(insns: Seq<BpfInsn>, i: int) -> Result<(), BpfError>
    decreases insns.len() - i,
{
    if i < 0 || i >= insns.len() {
        Ok(())
    } else {
        match check_insn_spec(insns[i], i, insns.len() as int) {
            Err(e) => Err(e),
            Ok(_) => check_all(insns, i + 1),
        }
    }
}

/// Whether control can pass from instruction `p` straight to index `q`.
pub open spec fn is_succ(insns: Seq<BpfInsn>, p: int, q: int) -> bool {
    let i = insns[p];
    let class = i.code & 0x07u8;
    let op = i.code & 0xF0u8;
    if class == BPF_JMP || class == BPF_JMP32 {
        if op == BPF_EXIT {
            false
        } else if op == BPF_CALL {
            q == p + 1
        } else if op == BPF_JA {
            q == p + i.off + 1
        } else {
            q == p + i.off + 1 || q == p + 1
        }
    } else if class == BPF_LD && (i.code & 0x18u8) == 0x18 {
        q == p + 2
    } else {
        q == p + 1
    }
}

/// `path` starts at the first instruction and each index in it is an
/// instruction of the program that passes control to the next.
pub open spec fn is_path(insns: Seq<BpfInsn>, path: Seq<int>) -> bool {
    &&& path.len() > 0
    &&& path[0] == 0
    &&& forall|j: int| 0 <= j < path.len() - 1 ==> 0 <= #[trigger] path[j] < insns.len() && is_succ(insns, path[j], path[j + 1])
}

/// Index `pc` can be reached from the first instruction.
pub open spec fn reachable(insns: Seq<BpfInsn>, pc: int) -> bool {
    exists|path: Seq<int>| #[trigger] is_path(insns, path) && path.last() == pc
}

/// The outcome of the control-flow check: every reachable index lies in the program.
pub open spec fn cfg_spec(insns: Seq<BpfInsn>) -> Result<(), BpfError> {
    if forall|pc: int| #[trigger] reachable(insns, pc) ==> 0 <= pc < insns.len() {
        Ok(())
    } else {
        Err(BpfError::InvalidProgram)
    }
}

/// Register states on entry: R1 points at the context (the packet for
/// socket filters and XDP), R10 at the stack, the rest uninitialised.
pub open spec fn initial_regs(prog_type: BpfProgType) -> Seq<RegState> {
    Seq::new(11, |r: int| if r == 1 {
        if prog_type == BpfProgType::SocketFilter || prog_type == BpfProgType::XDP {
            RegState::PtrToPacket
        } else {
            RegState::PtrToCtx
        }
    } else if r == 10 {
        RegState::PtrToStack
    } else {
        RegState::Uninitialized
    })
}

/// Whether the registers a helper reads are initialised.
pub open spec fn helper_args_ok(helper_id: i32, regs: Seq<RegState>) -> bool {
    if helper_id == 1 {
        regs[1] != RegState::Uninitialized && regs[2] != RegState::Uninitialized
    } else if helper_id == 2 {
        forall|r: int| 1 <= r < 5 ==> regs[r] != RegState::Uninitialized
    } else {
        true
    }
}

/// Register states after a helper call: R0 to R5 hold unknown values.
pub open spec fn clobber_call(regs: Seq<RegState>) -> Seq<RegState> {
    Seq::new(regs.len(), |r: int| if r < 6 { RegState::Unknown } else { regs[r] })
}

/// The outcome of walking the instructions in order from `pc`, with these
/// register states, up to the first exit.
pub open spec fn sim_from(insns: Seq<BpfInsn>, pc: int, regs: Seq<RegState>) -> Result<(), BpfError>
    decreases insns.len() - pc,
{
    if pc < 0 || pc >= insns.len() {
        Ok(())
    } else {
        let i = insns[pc];
        let class = i.code & 0x07u8;
        let dst = insn_dst(i) as int;
        let src = insn_src(i) as int;
        if class == BPF_LD {
            if pc + 2 >= insns.len() {
                Ok(())
            } else {
                sim_from(insns, pc + 2, regs.update(dst, RegState::Known))
            }
        } else if class == BPF_LDX {
            sim_from(insns, pc + 1, regs.update(dst, RegState::Unknown))
        } else if class == BPF_ALU || class == BPF_ALU64 {
            let v = if (i.code & 0xF0u8) == 0xB0 {
                if (i.code & 0x08u8) != 0 { regs[src] } else { RegState::Known }
            } else {
                RegState::Unknown
            };
            sim_from(insns, pc + 1, regs.update(dst, v))
        } else if class == BPF_JMP || class == BPF_JMP32 {
            let op = i.code & 0xF0u8;
            if op == BPF_EXIT {
                Ok(())
            } else if op == BPF_CALL {
                if !helper_args_ok(i.imm, regs) {
                    Err(BpfError::InvalidProgram)
                } else {
                    sim_from(insns, pc + 1, clobber_call(regs))
                }
            } else {
                sim_from(insns, pc + 1, regs)
            }
        } else {
            sim_from(insns, pc + 1, regs)
        }
    }
}

/// Whether an instruction is an exit.
pub open spec fn is_exit(i: BpfInsn) -> bool {
    (i.code & 0x07u8) == BPF_JMP && (i.code & 0xF0u8) == BPF_EXIT
}

/// The outcome of checking a program of this type.
pub open spec fn verify_spec(prog_type: BpfProgType, insns: Seq<BpfInsn>) -> Result<(), BpfError> {
    if insns.len() == 0 {
        Err(BpfError::InvalidProgram)
    } else if insns.len() > BPF_MAXINSNS {
        Err(BpfError::ProgramTooLarge)
    } else if !is_exit(insns.last()) {
        Err(BpfError::InvalidProgram)
    } else {
        match check_all(insns, 0) {
            Err(e) => Err(e),
            Ok(_) => match cfg_spec(insns) {
                Err(e) => Err(e),
                Ok(_) => sim_from(insns, 0, initial_regs(prog_type)),
            },
        }
    }
}

/// Every register number in the program names one of the eleven registers.
pub open spec fn regs_in_range(insns: Seq<BpfInsn>) -> bool {
    forall|k: int| 0 <= k < insns.len() ==> insn_dst(#[trigger] insns[k]) <= 10 && insn_src(insns[k]) <= 10
}

pub(crate) proof fn lemma_check_all_regs(insns: Seq<BpfInsn>, i: int)
    requires
        0 <= i,
        check_all(insns, i) is Ok,
    ensures
        forall|k: int| i <= k < insns.len() ==> insn_dst(#[trigger] insns[k]) <= 10 && insn_src(insns[k]) <= 10,
    decreases insns.len() - i,
{
    if i < insns.len() {
        lemma_check_all_regs(insns, i + 1);
    }
}

/// Every jump of a program whose instructions all pass their checks goes
/// forward, to an instruction inside the program.
pub proof fn lemma_checked_jumps_forward(insns: Seq<BpfInsn>, i: int)
    requires
        0 <= i,
        check_all(insns, i) is Ok,
    ensures
        forall|k: int| i <= k < insns.len() && has_jump_target(#[trigger] insns[k]) ==> k < k + insns[k].off + 1 < insns.len(),
    decreases insns.len() - i,
{
    if i < insns.len() {
        lemma_checked_jumps_forward(insns, i + 1);
    }
}

proof fn lemma_reachable_step(insns: Seq<BpfInsn>, p: int, q: int)
    requires
        0 <= p < insns.len(),
        reachable(insns, p),
        is_succ(insns, p, q),
    ensures
        reachable(insns, q),
{
    let path = choose|path: Seq<int>| #[trigger] is_path(insns, path) && path.last() == p;
    let path2 = path.push(q);
    assert forall|j: int| 0 <= j < path2.len() - 1 implies 0 <= #[trigger] path2[j] < insns.len()
        && is_succ(insns, path2[j], path2[j + 1]) by {
        if j < path.len() - 1 {
            assert(path[j] == path2[j]);
        }
    }
    assert(is_path(insns, path2));
}

proof fn lemma_reachable_start(insns: Seq<BpfInsn>)
    ensures
        reachable(insns, 0),
{
    assert(is_path(insns, seq![0int]));
}

proof fn lemma_visited_closed(insns: Seq<BpfInsn>, vis: Seq<bool>, path: Seq<int>, n: int)
    requires
        vis.len() == insns.len(),
        0 < insns.len(),
        vis[0],
        forall|v: int, q: int| 0 <= v < insns.len() && vis[v] && #[trigger] is_succ(insns, v, q)
            ==> 0 <= q < insns.len() && vis[q],
        is_path(insns, path),
        0 <= n < path.len(),
    ensures
        0 <= path[n] < insns.len() && vis[path[n]],
    decreases n,
{
    if n > 0 {
        lemma_visited_closed(insns, vis, path, n - 1);
        assert(is_succ(insns, path[n - 1], path[n - 1 + 1]));
    }
}

/// Verifier state
struct VerifierState {
    /// Register states
    regs: [RegState; 11],
    /// Stack slots
    stack: [RegState; 64],
}

impl VerifierState {
    /// Create initial state for program type
    fn new(prog_type: BpfProgType) -> (r: Self)
        ensures
            r.regs@ == initial_regs(prog_type),
    {
        let mut state = VerifierState { regs: [RegState::Uninitialized; 11], stack: [RegState::Uninitialized; 64] };
        // R1 = context pointer (depends on program type)
        state.regs[1] = match prog_type {
            BpfProgType::SocketFilter | BpfProgType::XDP => RegState::PtrToPacket,
            _ => RegState::PtrToCtx,
        };
        // R10 = frame pointer
        state.regs[10] = RegState::PtrToStack;
        assert(state.regs@ =~= initial_regs(prog_type));
        state
    }

    /// Check if read is valid
    fn is_valid_read(&self, reg: usize, offset: i32) -> (r: bool)
        requires
            reg < 11,
        ensures
            r == match self.regs@[reg as int] {
                RegState::PtrToStack => -512 <= offset < 0,
                RegState::PtrToCtx | RegState::PtrToMapValue | RegState::PtrToPacket => true,
                _ => false,
            },
    {
        match self.regs[reg] {
            RegState::PtrToStack => offset >= -512 && offset < 0,
            RegState::PtrToCtx | RegState::PtrToMapValue | RegState::PtrToPacket => true,
            _ => false,
        }
    }

    /// Check if write is valid
    fn is_valid_write(&self, reg: usize, offset: i32) -> (r: bool)
        requires
            reg < 11,
        ensures
            r == match self.regs@[reg as int] {
                RegState::PtrToStack => -512 <= offset < 0,
                RegState::PtrToMapValue => true,
                _ => false,
            },
    {
        match self.regs[reg] {
            RegState::PtrToStack => offset >= -512 && offset < 0,
            RegState::PtrToMapValue => true,
            _ => false,
        }
    }
}

/// Push the indices instruction `p` passes control to.
fn push_successors(insns: &[BpfInsn], p: usize, stack: &mut Vec<i128>)
    requires
        p < insns@.len(),
    ensures
        final(stack)@.len() >= old(stack)@.len(),
        final(stack)@.subrange(0, old(stack)@.len() as int) == old(stack)@,
        forall|j: int| old(stack)@.len() <= j < final(stack)@.len() ==> is_succ(insns@, p as int, #[trigger] final(stack)@[j] as int),
        forall|q: int| #[trigger] is_succ(insns@, p as int, q) ==> exists|j: int|
            old(stack)@.len() <= j < final(stack)@.len() && final(stack)@[j] == q,
{
    let insn = &insns[p];
    let class = insn.code & 0x07;
    let next = p as i128 + 1;
    if class == BPF_JMP || class == BPF_JMP32 {
        let op = insn.code & 0xF0;
        let target = p as i128 + insn.off as i128 + 1;
        if op == BPF_EXIT {
        } else if op == BPF_CALL {
            stack.push(next);
        } else if op == BPF_JA {
            stack.push(target);
        } else {
            stack.push(target);
            stack.push(next);
        }
    } else if class == BPF_LD && (insn.code & 0x18) == 0x18 {
        stack.push(p as i128 + 2);
    } else {
        stack.push(next);
    }
    assert(stack@.subrange(0, old(stack)@.len() as int) =~= old(stack)@);
    assert forall|q: int| #[trigger] is_succ(insns@, p as int, q) implies exists|j: int|
        old(stack)@.len() <= j < stack@.len() && stack@[j] == q by {
        if stack@.len() > old(stack)@.len() && stack@[old(stack)@.len() as int] == q {
        } else {
            assert(stack@[stack@.len() - 1] == q);
        }
    }
}

/// BPF verifier
pub struct BpfVerifier {
    /// Program type
    prog_type: BpfProgType,
    /// Maximum complexity
    max_complexity: u32,
    /// Log level
    log_level: u32,
}

impl BpfVerifier {
    /// The type of program this verifier checks.
    pub closed spec fn program_type(&self) -> BpfProgType {
        self.prog_type
    }

    /// The walk over a program of the maximum length stays within the complexity limit.
    pub closed spec fn wf(&self) -> bool {
        self.max_complexity >= BPF_MAXINSNS
    }

    /// Create new verifier
    pub fn new(prog_type: BpfProgType) -> (r: Self)
        ensures
            r.wf(),
            r.program_type() == prog_type,
    {
        BpfVerifier { prog_type, max_complexity: 1_000_000, log_level: 0 }
    }

    /// Verify a BPF program
    pub fn verify(&self, insns: &[BpfInsn]) -> (r: Result<(), BpfError>)
        requires
            self.wf(),
        ensures
            r == verify_spec(self.program_type(), insns@),
            r is Ok ==> forall|k: int| 0 <= k < insns@.len() && has_jump_target(#[trigger] insns@[k])
                ==> k < k + insns@[k].off + 1 < insns@.len(),
    {
        proof {
            if check_all(insns@, 0) is Ok {
                lemma_checked_jumps_forward(insns@, 0);
            }
        }
        if insns.len() == 0 {
            return Err(BpfError::InvalidProgram);
        }
        if insns.len() > BPF_MAXINSNS {
            return Err(BpfError::ProgramTooLarge);
        }
        let last = &insns[insns.len() - 1];
        if (last.code & 0x07) != BPF_JMP || (last.code & 0xF0) != BPF_EXIT {
            return Err(BpfError::InvalidProgram);
        }
        let mut i: usize = 0;
        while i < insns.len()
            invariant
                i <= insns@.len(),
                0 < insns@.len() <= BPF_MAXINSNS,
                is_exit(insns@.last()),
                check_all(insns@, 0) == check_all(insns@, i as int),
            decreases insns@.len() - i,
        {
            match self.check_instruction(&insns[i], i, insns.len()) {
                Ok(()) => {},
                Err(e) => {
                    return Err(e);
                },
            }
            i = i + 1;
        }
        proof {
            lemma_check_all_regs(insns@, 0);
        }
        match self.check_control_flow(insns) {
            Ok(()) => {},
            Err(e) => {
                return Err(e);
            },
        }
        self.simulate(insns)
    }

    /// Check a single instruction
    fn check_instruction(&self, insn: &BpfInsn, idx: usize, len: usize) -> (r: Result<(), BpfError>)
        requires
            idx < len,
        ensures
            r == check_insn_spec(*insn, idx as int, len as int),
    {
        let class = insn.code & 0x07;
        let dst = insn.dst();
        let src = insn.src();
        // Check register bounds
        if dst > 10 || src > 10 {
            return Err(BpfError::InvalidInstruction);
        }
        // R10 is read-only (frame pointer)
        if (class == BPF_ALU || class == BPF_ALU64 || class == BPF_LDX || class == BPF_LD) && dst == 10 {
            return Err(BpfError::InvalidInstruction);
        }
        // Check jump targets
        if class == BPF_JMP || class == BPF_JMP32 {
            let op = insn.code & 0xF0;
            if op != BPF_CALL && op != BPF_EXIT {
                let target = idx as i128 + insn.off as i128 + 1;
                if target <= idx as i128 || target >= len as i128 {
                    return Err(BpfError::InvalidProgram);
                }
            }
        }
        Ok(())
    }

    /// Check control flow: every index reachable from the first must be an
    /// instruction of the program.
    fn check_control_flow(&self, insns: &[BpfInsn]) -> (r: Result<(), BpfError>)
        ensures
            r == cfg_spec(insns@),
    {
        let n = insns.len();
        let mut visited: Vec<bool> = Vec::new();
        let mut k: usize = 0;
        while k < n
            invariant
                k <= n,
                visited@.len() == k,
                forall|v: int| 0 <= v < k ==> !visited@[v],
            decreases n - k,
        {
            visited.push(false);
            k = k + 1;
        }
        let mut stack: Vec<i128> = Vec::new();
        stack.push(0);
        assert(stack@[0] == 0);
        let ghost mut vset: Set<int> = Set::empty();
        proof {
            lemma_reachable_start(insns@);
            lemma_int_range(0, n as int);
        }
        while stack.len() > 0
            invariant
                n == insns@.len(),
                visited@.len() == n,
                set_int_range(0, n as int).finite(),
                set_int_range(0, n as int).len() == n,
                vset.finite(),
                vset.len() <= n,
                forall|v: int| #[trigger] vset.contains(v) <==> (0 <= v < n && visited@[v]),
                forall|v: int| 0 <= v < n && #[trigger] visited@[v] ==> reachable(insns@, v),
                forall|j: int| 0 <= j < stack@.len() ==> reachable(insns@, #[trigger] stack@[j] as int),
                forall|v: int, q: int| 0 <= v < n && visited@[v] && #[trigger] is_succ(insns@, v, q)
                    ==> (0 <= q < n && visited@[q]) || exists|j: int| 0 <= j < stack@.len() && stack@[j] == q,
                (0 < n && visited@[0]) || exists|j: int| 0 <= j < stack@.len() && stack@[j] == 0,
            decreases n - vset.len(), stack@.len(),
        {
            let ghost st0 = stack@;
            let ghost vis0 = visited@;
            let x = stack.pop().unwrap();
            assert(x == st0.last());
            assert(stack@ =~= st0.drop_last());
            assert(reachable(insns@, x as int));
            if x < 0 || x >= n as i128 {
                return Err(BpfError::InvalidProgram);
            }
            let p = x as usize;
            if visited[p] {
                proof {
                    assert forall|v: int, q: int| 0 <= v < n && visited@[v] && #[trigger] is_succ(insns@, v, q)
                        implies (0 <= q < n && visited@[q]) || exists|j: int| 0 <= j < stack@.len() && stack@[j] == q by {
                        if !(0 <= q < n && visited@[q]) {
                            let j = choose|j: int| 0 <= j < st0.len() && st0[j] == q;
                            assert(j != st0.len() - 1);
                            assert(stack@[j] == q);
                        }
                    }
                    if !(0 < n && visited@[0]) {
                        let j = choose|j: int| 0 <= j < st0.len() && st0[j] == 0;
                        assert(stack@[j] == 0);
                    }
                }
                continue;
            }
            visited.set(p, true);
            proof {
                lemma_len_subset(vset.insert(p as int), set_int_range(0, n as int));
                vset = vset.insert(p as int);
            }
            let ghost st1 = stack@;
            push_successors(insns, p, &mut stack);
            proof {
                assert forall|j: int| 0 <= j < stack@.len() implies reachable(insns@, #[trigger] stack@[j] as int) by {
                    if j < st1.len() {
                        assert(stack@[j] == st1[j]);
                        assert(st1[j] == st0[j]);
                    } else {
                        lemma_reachable_step(insns@, p as int, stack@[j] as int);
                    }
                }
                assert forall|v: int, q: int| 0 <= v < n && visited@[v] && #[trigger] is_succ(insns@, v, q)
                    implies (0 <= q < n && visited@[q]) || exists|j: int| 0 <= j < stack@.len() && stack@[j] == q by {
                    if v == p {
                    } else if !(0 <= q < n && visited@[q]) {
                        assert(vis0[v]);
                        let j = choose|j: int| 0 <= j < st0.len() && st0[j] == q;
                        assert(j != st0.len() - 1);
                        assert(stack@[j] == st1[j]);
                    }
                }
                if !(0 < n && visited@[0]) {
                    let j = choose|j: int| 0 <= j < st0.len() && st0[j] == 0;
                    assert(stack@[j] == st1[j]);
                }
            }
        }
        proof {
            assert forall|pc: int| #[trigger] reachable(insns@, pc) implies 0 <= pc < insns@.len() by {
                let path = choose|path: Seq<int>| #[trigger] is_path(insns@, path) && path.last() == pc;
                lemma_visited_closed(insns@, visited@, path, path.len() - 1);
            }
        }
        Ok(())
    }

    /// Walk the program in order, tracking register states, to check helper calls
    fn simulate(&self, insns: &[BpfInsn]) -> (r: Result<(), BpfError>)
        requires
            self.wf(),
            insns@.len() <= BPF_MAXINSNS,
            regs_in_range(insns@),
        ensures
            r == sim_from(insns@, 0, initial_regs(self.prog_type)),
    {
        let mut states_explored: u32 = 0;
        let mut state = VerifierState::new(self.prog_type);
        let mut pc: usize = 0;
        while pc < insns.len()
            invariant
                self.wf(),
                insns@.len() <= BPF_MAXINSNS,
                regs_in_range(insns@),
                states_explored <= pc,
                state.regs@.len() == 11,
                sim_from(insns@, 0, initial_regs(self.prog_type)) == sim_from(insns@, pc as int, state.regs@),
            decreases insns@.len() - pc,
        {
            states_explored = states_explored + 1;
            if states_explored > self.max_complexity {
                return Err(BpfError::TooManyInstructions);
            }
            let insn = &insns[pc];
            let class = insn.code & 0x07;
            let dst = insn.dst() as usize;
            let src = insn.src() as usize;
            let ghost regs0 = state.regs@;
            if class == BPF_LD {
                // 64-bit immediate load, two instructions
                state.regs[dst] = RegState::Known;
                if pc + 2 >= insns.len() {
                    return Ok(());
                }
                pc = pc + 2;
            } else if class == BPF_LDX {
                // checked only in strict mode
                let _ = state.is_valid_read(src, insn.off as i32);
                state.regs[dst] = RegState::Unknown;
                pc = pc + 1;
            } else if class == BPF_ST || class == BPF_STX {
                // checked only in strict mode
                let _ = state.is_valid_write(dst, insn.off as i32);
                pc = pc + 1;
            } else if class == BPF_ALU || class == BPF_ALU64 {
                let op = insn.code & 0xF0;
                if op == 0xB0 {
                    // MOV
                    if (insn.code & 0x08) != 0 {
                        state.regs[dst] = state.regs[src];
                    } else {
                        state.regs[dst] = RegState::Known;
                    }
                } else {
                    state.regs[dst] = RegState::Unknown;
                }
                pc = pc + 1;
            } else if class == BPF_JMP || class == BPF_JMP32 {
                let op = insn.code & 0xF0;
                if op == BPF_EXIT {
                    return Ok(());
                }
                if op == BPF_CALL {
                    // Helper call - clobbers R0-R5
                    match self.check_helper_call(insn.imm, &state) {
                        Ok(()) => {},
                        Err(e) => {
                            return Err(e);
                        },
                    }
                    let mut r: usize = 0;
                    while r < 6
                        invariant
                            r <= 6,
                            state.regs@.len() == 11,
                            forall|k: int| 0 <= k < r ==> state.regs@[k] == RegState::Unknown,
                            regs0.len() == 11,
                            forall|k: int| r <= k < 11 ==> state.regs@[k] == regs0[k],
                        decreases 6 - r,
                    {
                        state.regs[r] = RegState::Unknown;
                        r = r + 1;
                    }
                    assert(state.regs@ =~= clobber_call(regs0));
                }
                pc = pc + 1;
            } else {
                pc = pc + 1;
            }
        }
        Ok(())
    }

    /// Check helper function call
    fn check_helper_call(&self, helper_id: i32, state: &VerifierState) -> (r: Result<(), BpfError>)
        requires
            state.regs@.len() == 11,
        ensures
            r == if helper_args_ok(helper_id, state.regs@) {
                Ok::<(), BpfError>(())
            } else {
                Err(BpfError::InvalidProgram)
            },
    {
        if helper_id == 1 {
            // bpf_map_lookup_elem(map, key)
            if state.regs[1] == RegState::Uninitialized || state.regs[2] == RegState::Uninitialized {
                return Err(BpfError::InvalidProgram);
            }
        } else if helper_id == 2 {
            // bpf_map_update_elem(map, key, value, flags)
            let mut i: usize = 1;
            while i < 5
                invariant
                    1 <= i <= 5,
                    helper_id == 2,
                    state.regs@.len() == 11,
                    forall|r: int| 1 <= r < i ==> state.regs@[r] != RegState::Uninitialized,
                decreases 5 - i,
            {
                if state.regs[i] == RegState::Uninitialized {
                    assert(!(state.regs@[i as int] != RegState::Uninitialized));
                    return Err(BpfError::InvalidProgram);
                }
                i = i + 1;
            }
        }
        Ok(())
    }
}

} // verus!
