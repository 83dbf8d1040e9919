use vstd::prelude::*;

use crate::decode::{instr_wf, lemma_decode_wf, Instr};
use crate::display::{draw_gfx, lemma_draw_twice_restores};
use crate::entropy::{entropy_next, entropy_wf};
use crate::semantics::{
    any_key, cur_instr, exec_instr, first_pressed, spec_xDXYN, step_fetch_ok, step_spec,
    tick_timers, vm_wf, VmV,
};

verus! {

/// Register addition: for all register values a and b, adding VY into VX
/// sets VF to 1 exactly when a + b passes 255, and leaves (a + b) mod 256
/// in VX (unless X is the flag register itself, which the flag overwrites).
pub proof fn lemma_add_sets_carry(s: VmV, x: u8, y: u8, rnd: u8)
    requires
        vm_wf(s),
        x < 16,
        y < 16,
    ensures
        exec_instr(s, Instr::AddReg { x, y }, rnd).1 is Ok,
        exec_instr(s, Instr::AddReg { x, y }, rnd).0.v[15] == if s.v[x as int] + s.v[y as int]
            > 255 {
            1u8
        } else {
            0u8
        },
        x != 15 ==> exec_instr(s, Instr::AddReg { x, y }, rnd).0.v[x as int] == (s.v[x as int]
            + s.v[y as int]) % 256,
{
}

/// Register subtraction: for all register values a and b, subtracting VY
/// from VX sets VF to 1 exactly when a >= b (no borrow), and leaves
/// (a - b) mod 256 in VX (unless X is the flag register itself, which the
/// flag overwrites).
pub proof fn lemma_sub_sets_no_borrow(s: VmV, x: u8, y: u8, rnd: u8)
    requires
        vm_wf(s),
        x < 16,
        y < 16,
    ensures
        exec_instr(s, Instr::SubReg { x, y }, rnd).1 is Ok,
        exec_instr(s, Instr::SubReg { x, y }, rnd).0.v[15] == if s.v[x as int] >= s.v[y as int] {
            1u8
        } else {
            0u8
        },
        x != 15 ==> exec_instr(s, Instr::SubReg { x, y }, rnd).0.v[x as int] == (s.v[x as int]
            - s.v[y as int]) % 256,
{
}

/// Drawing a sprite twice at the same coordinates restores the display: the
/// second draw of the identical sprite undoes the first. Stated on the
/// machine: when both draws stay in bounds and the coordinate registers are
/// not the flag register (the first draw overwrites VF), the display after
/// the second draw is exactly the display before the first. In particular,
/// starting from a cleared display the grid is all off again.
pub proof fn lemma_draw_twice_restores_machine(s: VmV, x: u8, y: u8, n: u8)
    requires
        vm_wf(s),
        x < 15,
        y < 15,
        n < 16,
        s.i + n <= 4096,
        s.pc + 2 < 4096,
    ensures
        spec_xDXYN(s, x, y, n).1 is Ok,
        spec_xDXYN(spec_xDXYN(s, x, y, n).0, x, y, n).1 is Ok,
        spec_xDXYN(spec_xDXYN(s, x, y, n).0, x, y, n).0.gfx =~= s.gfx,
{
    let s1 = spec_xDXYN(s, x, y, n).0;
    let rows = s.mem.subrange(s.i as int, s.i + n);
    assert(s1.mem == s.mem);
    assert(s1.i == s.i);
    assert(s1.v[x as int] == s.v[x as int]);
    assert(s1.v[y as int] == s.v[y as int]);
    assert(s1.gfx == draw_gfx(s.gfx, rows, s.v[x as int] as int, s.v[y as int] as int));
    lemma_draw_twice_restores(s.gfx, rows, s.v[x as int] as int, s.v[y as int] as int);
}

/// The machine is waiting for a key: the instruction under the program
/// counter is the key wait and no key is pressed.
pub open spec fn waiting_no_key(s: VmV) -> bool {
    &&& step_fetch_ok(s)
    &&& cur_instr(s) matches Instr::WaitKey { .. }
    &&& !any_key(s.keys)
}

/// While the machine waits for a key and none is pressed, a cycle only
/// ticks the timers: the program counter, and everything else, stays as it
/// was, so the machine keeps waiting.
pub proof fn lemma_wait_key_stalls(s: VmV, b: u8)
    requires
        vm_wf(s),
        waiting_no_key(s),
    ensures
        step_spec(s, b).1 is Ok,
        step_spec(s, b).0 == tick_timers(s),
        step_spec(s, b).0.pc == s.pc,
        waiting_no_key(step_spec(s, b).0),
        vm_wf(step_spec(s, b).0),
{
}

/// The machine after `k` cycles, each fed the entropy byte zero (the byte
/// matters only to the random instruction).
pub open spec fn run_steps(s: VmV, k: nat) -> VmV
    decreases k,
{
    if k == 0 {
        s
    } else {
        run_steps(step_spec(s, 0).0, (k - 1) as nat)
    }
}

/// However many cycles run while the machine waits for a key and none is
/// pressed, the program counter never moves and the machine is still
/// waiting.
pub proof fn lemma_wait_key_stalls_forever(s: VmV, k: nat)
    requires
        vm_wf(s),
        waiting_no_key(s),
    ensures
        run_steps(s, k).pc == s.pc,
        waiting_no_key(run_steps(s, k)),
        vm_wf(run_steps(s, k)),
    decreases k,
{
    if k > 0 {
        lemma_wait_key_stalls(s, 0);
        lemma_wait_key_stalls_forever(step_spec(s, 0).0, (k - 1) as nat);
    }
}

/// The lowest pressed key at or after `j` exists and is pressed, when some
/// key at or after `j` is pressed.
proof fn lemma_first_pressed_finds(keys: Seq<bool>, j: int)
    requires
        0 <= j <= keys.len(),
        exists|k: int| j <= k < keys.len() && keys[k],
    ensures
        j <= first_pressed(keys, j) < keys.len(),
        keys[first_pressed(keys, j)],
    decreases keys.len() - j,
{
    let k = choose|k: int| j <= k < keys.len() && keys[k];
    if j < keys.len() {
        if !keys[j] {
            assert(j + 1 <= k < keys.len() && keys[k]);
            lemma_first_pressed_finds(keys, j + 1);
        }
    }
}

/// Once some key is pressed, the cycle on the key-wait instruction stores
/// the lowest pressed key's index in VX — an index that really is pressed —
/// and the program counter moves two bytes on.
pub proof fn lemma_wait_key_releases(s: VmV, b: u8, x: u8)
    requires
        vm_wf(s),
        step_fetch_ok(s),
        cur_instr(s) == (Instr::WaitKey { x }),
        x < 16,
        any_key(s.keys),
    ensures
        step_spec(s, b).1 is Ok,
        step_spec(s, b).0.pc == s.pc + 2,
        step_spec(s, b).0.v[x as int] == first_pressed(s.keys, 0) as u8,
        s.keys[first_pressed(s.keys, 0)],
{
    lemma_first_pressed_finds(s.keys, 0);
}

/// One instruction never breaks the structural invariant, whatever byte
/// the entropy source yields.
#[verifier::rlimit(100)]
#[verifier::spinoff_prover]
pub proof fn lemma_exec_preserves_wf(s: VmV, ins: Instr, b: u8)
    requires
        vm_wf(s),
        instr_wf(ins),
    ensures
        vm_wf(exec_instr(s, ins, b).0),
{
    let out = exec_instr(s, ins, b);
    match ins {
        Instr::Cls => assert(vm_wf(out.0)),
        Instr::Ret => assert(vm_wf(out.0)),
        Instr::Jump { nnn } => assert(vm_wf(out.0)),
        Instr::Call { nnn } => assert(vm_wf(out.0)),
        Instr::SkipEqImm { x, nn } => assert(vm_wf(out.0)),
        Instr::SkipNeImm { x, nn } => assert(vm_wf(out.0)),
        Instr::SkipEqReg { x, y } => assert(vm_wf(out.0)),
        Instr::LoadImm { x, nn } => assert(vm_wf(out.0)),
        Instr::AddImm { x, nn } => assert(vm_wf(out.0)),
        Instr::Assign { x, y } => assert(vm_wf(out.0)),
        Instr::Or { x, y } => assert(vm_wf(out.0)),
        Instr::And { x, y } => assert(vm_wf(out.0)),
        Instr::Xor { x, y } => assert(vm_wf(out.0)),
        Instr::AddReg { x, y } => assert(vm_wf(out.0)),
        Instr::SubReg { x, y } => assert(vm_wf(out.0)),
        Instr::ShiftRight { x, y } => assert(vm_wf(out.0)),
        Instr::SubRev { x, y } => assert(vm_wf(out.0)),
        Instr::ShiftLeft { x, y } => assert(vm_wf(out.0)),
        Instr::SkipNeReg { x, y } => assert(vm_wf(out.0)),
        Instr::LoadIndex { nnn } => assert(vm_wf(out.0)),
        Instr::JumpOffset { nnn } => assert(vm_wf(out.0)),
        Instr::Random { x, nn } => assert(vm_wf(out.0)),
        Instr::Draw { x, y, n } => assert(vm_wf(out.0)),
        Instr::SkipKey { x } => assert(vm_wf(out.0)),
        Instr::SkipNoKey { x } => assert(vm_wf(out.0)),
        Instr::GetDelay { x } => assert(vm_wf(out.0)),
        Instr::WaitKey { x } => assert(vm_wf(out.0)),
        Instr::SetDelay { x } => assert(vm_wf(out.0)),
        Instr::SetSound { x } => assert(vm_wf(out.0)),
        Instr::AddIndex { x } => assert(vm_wf(out.0)),
        Instr::FontAddr { x } => assert(vm_wf(out.0)),
        Instr::StoreBcd { x } => assert(vm_wf(out.0)),
        Instr::StoreRegs { x } => assert(vm_wf(out.0)),
        Instr::LoadRegs { x } => assert(vm_wf(out.0)),
        Instr::Illegal => assert(vm_wf(out.0)),
    }
}

/// A cycle never breaks the structural invariant: whatever instruction
/// runs, and whatever byte the entropy source yields, the machine that
/// comes out is well formed.
pub proof fn lemma_step_preserves_wf(s: VmV, b: u8)
    requires
        vm_wf(s),
    ensures
        vm_wf(step_spec(s, b).0),
{
    if step_fetch_ok(s) {
        let ins = cur_instr(s);
        lemma_decode_wf(s.mem[s.pc as int], s.mem[s.pc as int + 1]);
        lemma_exec_preserves_wf(s, ins, b);
        assert(entropy_wf(entropy_next(s.entropy)));
    }
}

} // verus!
