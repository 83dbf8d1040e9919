use vstd::prelude::*;

use crate::decode::{decode, Instr};
use crate::display::{cleared_gfx, draw_collision, draw_gfx, gfx_len};
use crate::entropy::{entropy_next, entropy_wf, EntropyV};
use crate::font::font_seq;

verus! {

/// A fault an executed cycle can raise. Faults are reported to the caller;
/// the machine state is left as it was before the cycle.
#[derive(Clone, Copy, PartialEq, Eq, Structural, Debug)]
pub enum Fault {
    /// The instruction word matches no known pattern.
    IllegalOpcode,
    /// A call was attempted with the call stack already full.
    StackOverflow,
    /// A return was attempted with the call stack empty.
    StackUnderflow,
    /// An access relative to the program counter or the index register would
    /// leave the address space.
    AddressOutOfRange,
}

/// Why loading a program failed.
#[derive(Clone, Copy, PartialEq, Eq, Structural, Debug)]
pub enum LoadError {
    /// The program does not fit between the load address and the end of
    /// memory.
    TooLarge,
}

/// What one executed cycle reports to the host.
#[derive(Clone, Copy, PartialEq, Eq, Structural, Debug)]
pub struct StepResult {
    /// The instruction changed the display (it cleared it or drew a sprite).
    pub display_updated: bool,
    /// The sound timer went from one to zero this cycle: the host should
    /// stop its tone.
    pub sound_stopped: bool,
}

/// Behaviors on which historical interpreters disagree, each selectable.
/// `Quirks::classic()` picks the defaults this machine uses.
#[derive(Clone, Copy, PartialEq, Eq, Structural, Debug)]
pub struct Quirks {
    /// The index-add instruction also sets VF when the new index passes the
    /// end of the address space.
    pub index_add_carry: bool,
    /// The jump-with-offset instruction adds the register named by the high
    /// nibble of its address instead of register 0.
    pub jump_offset_vx: bool,
    /// The shift instructions read VY and store the shifted value in VX,
    /// instead of shifting VX in place.
    pub shift_reads_vy: bool,
}

/// The default quirk selection: none of the contested behaviors is enabled.
pub open spec fn classic_quirks() -> Quirks {
    Quirks { index_add_carry: false, jump_offset_vx: false, shift_reads_vy: false }
}

impl Quirks {
    /// The default selection: shifts work on VX in place, the offset jump
    /// uses register 0, and the index add leaves VF alone.
    pub fn classic() -> (q: Quirks)
        ensures
            q == classic_quirks(),
    {
        Quirks { index_add_carry: false, jump_offset_vx: false, shift_reads_vy: false }
    }
}

/// The mathematical state of the machine: memory, register file, index and
/// program counter, framebuffer, timers, call stack, key latch, redraw flag,
/// entropy source and quirk selection.
#[verifier::ext_equal]
pub ghost struct VmV {
    /// The flat address space.
    pub mem: Seq<u8>,
    /// The sixteen general registers; index fifteen is the flag register VF.
    pub v: Seq<u8>,
    /// The index register.
    pub i: u16,
    /// The program counter.
    pub pc: u16,
    /// The framebuffer, row-major.
    pub gfx: Seq<bool>,
    /// The delay timer.
    pub delay: u8,
    /// The sound timer.
    pub sound: u8,
    /// The return addresses of the calls in progress, oldest first.
    pub stack: Seq<u16>,
    /// The sixteen key states, true while pressed.
    pub keys: Seq<bool>,
    /// Set when the display changed; the host clears it after rendering.
    pub draw: bool,
    /// The entropy source.
    pub entropy: EntropyV,
    /// The quirk selection.
    pub quirks: Quirks,
}

/// The structural invariant of a machine state: every component has its
/// fixed size, the call stack holds at most sixteen return addresses, and
/// the entropy cursor is in range.
pub open spec fn vm_wf(s: VmV) -> bool {
    &&& s.mem.len() == 4096
    &&& s.v.len() == 16
    &&& s.gfx.len() == gfx_len()
    &&& s.stack.len() <= 16
    &&& s.keys.len() == 16
    &&& entropy_wf(s.entropy)
}

/// The program counter two bytes on, wrapped to sixteen bits.
pub open spec fn pc_next(s: VmV) -> u16 {
    ((s.pc + 2) % 0x10000) as u16
}

/// The program counter after a conditional skip: four bytes on when the
/// condition holds, two otherwise, wrapped to sixteen bits.
pub open spec fn pc_skip(s: VmV, cond: bool) -> u16 {
    if cond {
        ((s.pc + 4) % 0x10000) as u16
    } else {
        ((s.pc + 2) % 0x10000) as u16
    }
}

/// Clear the display: every pixel off, redraw pending.
pub open spec fn spec_x00E0(s: VmV) -> VmV {
    VmV { gfx: cleared_gfx(), draw: true, pc: pc_next(s), ..s }
}

/// Return from a subroutine: pop the youngest return address into the
/// program counter; a fault when no call is in progress.
pub open spec fn spec_x00EE(s: VmV) -> (VmV, Result<(), Fault>) {
    if s.stack.len() == 0 {
        (s, Err(Fault::StackUnderflow))
    } else {
        (VmV { pc: s.stack.last(), stack: s.stack.drop_last(), ..s }, Ok(()))
    }
}

/// Jump to the address.
pub open spec fn spec_x1NNN(s: VmV, nnn: u16) -> VmV {
    VmV { pc: nnn, ..s }
}

/// Call the subroutine at the address: push the address of the following
/// instruction and jump; a fault when the stack is already full.
pub open spec fn spec_x2NNN(s: VmV, nnn: u16) -> (VmV, Result<(), Fault>) {
    if s.stack.len() >= 16 {
        (s, Err(Fault::StackOverflow))
    } else {
        (VmV { stack: s.stack.push(pc_next(s)), pc: nnn, ..s }, Ok(()))
    }
}

/// Skip the next instruction when VX equals the immediate.
pub open spec fn spec_x3XNN(s: VmV, x: u8, nn: u8) -> VmV {
    VmV { pc: pc_skip(s, s.v[x as int] == nn), ..s }
}

/// Skip the next instruction when VX differs from the immediate.
pub open spec fn spec_x4XNN(s: VmV, x: u8, nn: u8) -> VmV {
    VmV { pc: pc_skip(s, s.v[x as int] != nn), ..s }
}

/// Skip the next instruction when VX equals VY.
pub open spec fn spec_x5XY0(s: VmV, x: u8, y: u8) -> VmV {
    VmV { pc: pc_skip(s, s.v[x as int] == s.v[y as int]), ..s }
}

/// VX := the immediate.
pub open spec fn spec_x6XNN(s: VmV, x: u8, nn: u8) -> VmV {
    VmV { v: s.v.update(x as int, nn), pc: pc_next(s), ..s }
}

/// VX := VX plus the immediate, wrapping to eight bits; VF is untouched.
pub open spec fn spec_x7XNN(s: VmV, x: u8, nn: u8) -> VmV {
    VmV { v: s.v.update(x as int, ((s.v[x as int] + nn) % 256) as u8), pc: pc_next(s), ..s }
}

/// VX := VY.
pub open spec fn spec_x8XY0(s: VmV, x: u8, y: u8) -> VmV {
    VmV { v: s.v.update(x as int, s.v[y as int]), pc: pc_next(s), ..s }
}

/// VX := VX | VY.
pub open spec fn spec_x8XY1(s: VmV, x: u8, y: u8) -> VmV {
    VmV { v: s.v.update(x as int, s.v[x as int] | s.v[y as int]), pc: pc_next(s), ..s }
}

/// VX := VX & VY.
pub open spec fn spec_x8XY2(s: VmV, x: u8, y: u8) -> VmV {
    VmV { v: s.v.update(x as int, s.v[x as int] & s.v[y as int]), pc: pc_next(s), ..s }
}

/// VX := VX ^ VY.
pub open spec fn spec_x8XY3(s: VmV, x: u8, y: u8) -> VmV {
    VmV { v: s.v.update(x as int, s.v[x as int] ^ s.v[y as int]), pc: pc_next(s), ..s }
}

/// VX := VX + VY wrapped to eight bits, and VF := 1 exactly when the true
/// sum passes 255. When X is the flag register itself, the flag wins.
pub open spec fn spec_x8XY4(s: VmV, x: u8, y: u8) -> VmV {
    let sum = s.v[x as int] + s.v[y as int];
    let vf: u8 = if sum > 255 {
        1
    } else {
        0
    };
    VmV {
        v: s.v.update(x as int, (sum % 256) as u8).update(15, vf),
        pc: pc_next(s),
        ..s
    }
}

/// VX := VX - VY wrapped to eight bits, and VF := 1 exactly when VX >= VY
/// (no borrow). When X is the flag register itself, the flag wins.
pub open spec fn spec_x8XY5(s: VmV, x: u8, y: u8) -> VmV {
    let diff = s.v[x as int] - s.v[y as int];
    let vf: u8 = if s.v[x as int] >= s.v[y as int] {
        1
    } else {
        0
    };
    VmV {
        v: s.v.update(x as int, (diff % 256) as u8).update(15, vf),
        pc: pc_next(s),
        ..s
    }
}

/// The register a shift reads: VY under the shift quirk, else VX.
pub open spec fn shift_src(s: VmV, x: u8, y: u8) -> u8 {
    if s.quirks.shift_reads_vy {
        s.v[y as int]
    } else {
        s.v[x as int]
    }
}

/// Shift right by one into VX; VF := the bit shifted out. When X is the
/// flag register itself, the flag wins.
pub open spec fn spec_x8XY6(s: VmV, x: u8, y: u8) -> VmV {
    let src = shift_src(s, x, y);
    VmV {
        v: s.v.update(x as int, (src / 2) as u8).update(15, (src % 2) as u8),
        pc: pc_next(s),
        ..s
    }
}

/// VX := VY - VX wrapped to eight bits, and VF := 1 exactly when VY >= VX
/// (no borrow). When X is the flag register itself, the flag wins.
pub open spec fn spec_x8XY7(s: VmV, x: u8, y: u8) -> VmV {
    let diff = s.v[y as int] - s.v[x as int];
    let vf: u8 = if s.v[y as int] >= s.v[x as int] {
        1
    } else {
        0
    };
    VmV {
        v: s.v.update(x as int, (diff % 256) as u8).update(15, vf),
        pc: pc_next(s),
        ..s
    }
}

/// Shift left by one into VX; VF := the bit shifted out. When X is the
/// flag register itself, the flag wins.
pub open spec fn spec_x8XYE(s: VmV, x: u8, y: u8) -> VmV {
    let src = shift_src(s, x, y);
    VmV {
        v: s.v.update(x as int, ((src * 2) % 256) as u8).update(15, (src / 128) as u8),
        pc: pc_next(s),
        ..s
    }
}

/// Skip the next instruction when VX differs from VY.
pub open spec fn spec_x9XY0(s: VmV, x: u8, y: u8) -> VmV {
    VmV { pc: pc_skip(s, s.v[x as int] != s.v[y as int]), ..s }
}

/// I := the address.
pub open spec fn spec_xANNN(s: VmV, nnn: u16) -> VmV {
    VmV { i: nnn, pc: pc_next(s), ..s }
}

/// Jump to the address plus an offset register, modulo the sixteen-bit
/// space. The offset comes from register 0, or, under the jump quirk, from
/// the register named by the high nibble of the address.
pub open spec fn spec_xBNNN(s: VmV, nnn: u16) -> VmV {
    let off = if s.quirks.jump_offset_vx {
        s.v[nnn as int / 256]
    } else {
        s.v[0]
    };
    VmV { pc: ((nnn + off) % 0x10000) as u16, ..s }
}

/// VX := a random byte masked with the immediate.
pub open spec fn spec_xCXNN(s: VmV, x: u8, nn: u8, rnd: u8) -> VmV {
    VmV { v: s.v.update(x as int, rnd & nn), pc: pc_next(s), ..s }
}

/// Draw the n-row sprite stored at I at the point (VX, VY): XOR-composite
/// it onto the display with per-axis wraparound, set VF to 1 exactly when a
/// lit pixel went out, and mark the display dirty. A fault when the sprite
/// bytes would be read from past the end of memory; the state is then
/// unchanged.
pub open spec fn spec_xDXYN(s: VmV, x: u8, y: u8, n: u8) -> (VmV, Result<(), Fault>) {
    if s.i + n > 4096 {
        (s, Err(Fault::AddressOutOfRange))
    } else {
        let rows = s.mem.subrange(s.i as int, s.i + n);
        let x0 = s.v[x as int] as int;
        let y0 = s.v[y as int] as int;
        let collided = draw_collision(s.gfx, rows, x0, y0);
        let vf: u8 = if collided {
            1
        } else {
            0
        };
        (
            VmV {
                gfx: draw_gfx(s.gfx, rows, x0, y0),
                v: s.v.update(15, vf),
                draw: true,
                pc: pc_next(s),
                ..s
            },
            Ok(()),
        )
    }
}

/// Skip the next instruction when the key named by the low nibble of VX is
/// pressed.
pub open spec fn spec_xEX9E(s: VmV, x: u8) -> VmV {
    VmV { pc: pc_skip(s, s.keys[s.v[x as int] as int % 16]), ..s }
}

/// Skip the next instruction when the key named by the low nibble of VX is
/// released.
pub open spec fn spec_xEXA1(s: VmV, x: u8) -> VmV {
    VmV { pc: pc_skip(s, !s.keys[s.v[x as int] as int % 16]), ..s }
}

/// VX := the delay timer.
pub open spec fn spec_xFX07(s: VmV, x: u8) -> VmV {
    VmV { v: s.v.update(x as int, s.delay), pc: pc_next(s), ..s }
}

/// Whether some key is pressed.
pub open spec fn any_key(keys: Seq<bool>) -> bool {
    exists|k: int| 0 <= k < keys.len() && keys[k]
}

/// The index of the first pressed key at or after `j`; the length of the
/// latch when none is.
pub open spec fn first_pressed(keys: Seq<bool>, j: int) -> int
    decreases keys.len() - j,
{
    if j < 0 || j >= keys.len() {
        keys.len() as int
    } else if keys[j] {
        j
    } else {
        first_pressed(keys, j + 1)
    }
}

/// Wait for a key press: while no key is pressed the state is exactly as it
/// was (the program counter stays on this instruction, so the next cycle
/// waits again); once a key is pressed, VX := the lowest pressed index and
/// the program counter moves on.
pub open spec fn spec_xFX0A(s: VmV, x: u8) -> VmV {
    if any_key(s.keys) {
        VmV {
            v: s.v.update(x as int, first_pressed(s.keys, 0) as u8),
            pc: pc_next(s),
            ..s
        }
    } else {
        s
    }
}

/// Delay timer := VX.
pub open spec fn spec_xFX15(s: VmV, x: u8) -> VmV {
    VmV { delay: s.v[x as int], pc: pc_next(s), ..s }
}

/// Sound timer := VX.
pub open spec fn spec_xFX18(s: VmV, x: u8) -> VmV {
    VmV { sound: s.v[x as int], pc: pc_next(s), ..s }
}

/// I := I + VX modulo the sixteen-bit space. Under the index quirk VF := 1
/// exactly when the true sum passes the end of the address space.
pub open spec fn spec_xFX1E(s: VmV, x: u8) -> VmV {
    let sum = s.i + s.v[x as int];
    let v2 = if s.quirks.index_add_carry {
        s.v.update(
            15,
            if sum > 0xFFF {
                1u8
            } else {
                0u8
            },
        )
    } else {
        s.v
    };
    VmV { i: (sum % 0x10000) as u16, v: v2, pc: pc_next(s), ..s }
}

/// I := the glyph address of the value in VX: five bytes per glyph from the
/// bottom of memory.
pub open spec fn spec_xFX29(s: VmV, x: u8) -> VmV {
    VmV { i: (s.v[x as int] * 5) as u16, pc: pc_next(s), ..s }
}

/// Store the decimal digits of VX — hundreds, tens, ones — at I, I+1, I+2.
/// A fault when the three bytes would not fit below the end of memory; the
/// state is then unchanged.
pub open spec fn spec_xFX33(s: VmV, x: u8) -> (VmV, Result<(), Fault>) {
    if s.i + 3 > 4096 {
        (s, Err(Fault::AddressOutOfRange))
    } else {
        let vx = s.v[x as int];
        (
            VmV {
                mem: s.mem.update(s.i as int, (vx / 100) as u8).update(
                    s.i + 1,
                    ((vx / 10) % 10) as u8,
                ).update(s.i + 2, (vx % 10) as u8),
                pc: pc_next(s),
                ..s
            },
            Ok(()),
        )
    }
}

/// Store registers 0 through X, inclusive, to memory starting at I. A fault
/// when the block would pass the end of memory; the state is then unchanged.
pub open spec fn spec_xFX55(s: VmV, x: u8) -> (VmV, Result<(), Fault>) {
    if s.i + x + 1 > 4096 {
        (s, Err(Fault::AddressOutOfRange))
    } else {
        (
            VmV {
                mem: Seq::new(
                    s.mem.len(),
                    |j: int|
                        if s.i <= j <= s.i + x {
                            s.v[j - s.i]
                        } else {
                            s.mem[j]
                        },
                ),
                pc: pc_next(s),
                ..s
            },
            Ok(()),
        )
    }
}

/// Load registers 0 through X, inclusive, from memory starting at I. A
/// fault when the block would pass the end of memory; the state is then
/// unchanged.
pub open spec fn spec_xFX65(s: VmV, x: u8) -> (VmV, Result<(), Fault>) {
    if s.i + x + 1 > 4096 {
        (s, Err(Fault::AddressOutOfRange))
    } else {
        (
            VmV {
                v: Seq::new(
                    s.v.len(),
                    |j: int|
                        if 0 <= j <= x {
                            s.mem[s.i + j]
                        } else {
                            s.v[j]
                        },
                ),
                pc: pc_next(s),
                ..s
            },
            Ok(()),
        )
    }
}

/// The transition one decoded instruction makes on the machine state. The
/// byte `rnd` feeds only the random instruction. On a fault the state is
/// returned unchanged. The entropy source and the timers are handled one
/// level up, by `step_spec`.
pub open spec fn exec_instr(s: VmV, ins: Instr, rnd: u8) -> (VmV, Result<(), Fault>) {
    match ins {
        Instr::Cls => (spec_x00E0(s), Ok(())),
        Instr::Ret => spec_x00EE(s),
        Instr::Jump { nnn } => (spec_x1NNN(s, nnn), Ok(())),
        Instr::Call { nnn } => spec_x2NNN(s, nnn),
        Instr::SkipEqImm { x, nn } => (spec_x3XNN(s, x, nn), Ok(())),
        Instr::SkipNeImm { x, nn } => (spec_x4XNN(s, x, nn), Ok(())),
        Instr::SkipEqReg { x, y } => (spec_x5XY0(s, x, y), Ok(())),
        Instr::LoadImm { x, nn } => (spec_x6XNN(s, x, nn), Ok(())),
        Instr::AddImm { x, nn } => (spec_x7XNN(s, x, nn), Ok(())),
        Instr::Assign { x, y } => (spec_x8XY0(s, x, y), Ok(())),
        Instr::Or { x, y } => (spec_x8XY1(s, x, y), Ok(())),
        Instr::And { x, y } => (spec_x8XY2(s, x, y), Ok(())),
        Instr::Xor { x, y } => (spec_x8XY3(s, x, y), Ok(())),
        Instr::AddReg { x, y } => (spec_x8XY4(s, x, y), Ok(())),
        Instr::SubReg { x, y } => (spec_x8XY5(s, x, y), Ok(())),
        Instr::ShiftRight { x, y } => (spec_x8XY6(s, x, y), Ok(())),
        Instr::SubRev { x, y } => (spec_x8XY7(s, x, y), Ok(())),
        Instr::ShiftLeft { x, y } => (spec_x8XYE(s, x, y), Ok(())),
        Instr::SkipNeReg { x, y } => (spec_x9XY0(s, x, y), Ok(())),
        Instr::LoadIndex { nnn } => (spec_xANNN(s, nnn), Ok(())),
        Instr::JumpOffset { nnn } => (spec_xBNNN(s, nnn), Ok(())),
        Instr::Random { x, nn } => (spec_xCXNN(s, x, nn, rnd), Ok(())),
        Instr::Draw { x, y, n } => spec_xDXYN(s, x, y, n),
        Instr::SkipKey { x } => (spec_xEX9E(s, x), Ok(())),
        Instr::SkipNoKey { x } => (spec_xEXA1(s, x), Ok(())),
        Instr::GetDelay { x } => (spec_xFX07(s, x), Ok(())),
        Instr::WaitKey { x } => (spec_xFX0A(s, x), Ok(())),
        Instr::SetDelay { x } => (spec_xFX15(s, x), Ok(())),
        Instr::SetSound { x } => (spec_xFX18(s, x), Ok(())),
        Instr::AddIndex { x } => (spec_xFX1E(s, x), Ok(())),
        Instr::FontAddr { x } => (spec_xFX29(s, x), Ok(())),
        Instr::StoreBcd { x } => spec_xFX33(s, x),
        Instr::StoreRegs { x } => spec_xFX55(s, x),
        Instr::LoadRegs { x } => spec_xFX65(s, x),
        Instr::Illegal => (s, Err(Fault::IllegalOpcode)),
    }
}

/// Each nonzero timer loses exactly one per executed cycle; neither goes
/// below zero.
pub open spec fn tick_timers(s: VmV) -> VmV {
    VmV {
        delay: if s.delay > 0 {
            (s.delay - 1) as u8
        } else {
            0
        },
        sound: if s.sound > 0 {
            (s.sound - 1) as u8
        } else {
            0
        },
        ..s
    }
}

/// Whether both instruction bytes at the program counter lie in memory.
pub open spec fn step_fetch_ok(s: VmV) -> bool {
    s.pc + 1 < 4096
}

/// The instruction under the program counter.
pub open spec fn cur_instr(s: VmV) -> Instr {
    decode(s.mem[s.pc as int], s.mem[s.pc as int + 1])
}

/// Whether the next cycle consumes a byte of entropy.
pub open spec fn step_draws_entropy(s: VmV) -> bool {
    step_fetch_ok(s) && cur_instr(s) matches Instr::Random { .. }
}

/// One whole cycle: fetch the word at the program counter (a fault when it
/// hangs over the end of memory), decode it, execute it, and on success
/// advance the entropy source if the instruction drew from it and tick the
/// timers. The byte `rnd` is the one the entropy source yields this cycle;
/// only the random instruction reads it. On a fault the state is unchanged
/// and the fault is reported.
pub open spec fn step_spec(pre: VmV, rnd: u8) -> (VmV, Result<StepResult, Fault>) {
    if !step_fetch_ok(pre) {
        (pre, Err(Fault::AddressOutOfRange))
    } else {
        let ins = cur_instr(pre);
        let out = exec_instr(pre, ins, rnd);
        match out.1 {
            Ok(u) => {
                let stepped = VmV {
                    entropy: if ins matches Instr::Random { .. } {
                        entropy_next(pre.entropy)
                    } else {
                        pre.entropy
                    },
                    ..out.0
                };
                (
                    tick_timers(stepped),
                    Ok(
                        StepResult {
                            display_updated: ins matches Instr::Cls || ins matches Instr::Draw {
                                ..
                            },
                            sound_stopped: stepped.sound == 1,
                        },
                    ),
                )
            },
            Err(f) => (pre, Err(f)),
        }
    }
}

/// The cycle from `pre` to `post` reporting `r` is the one `step_spec`
/// prescribes when the entropy source yields `rnd`.
pub open spec fn step_matches(
    pre: VmV,
    post: VmV,
    r: Result<StepResult, Fault>,
    rnd: u8,
) -> bool {
    post == step_spec(pre, rnd).0 && r == step_spec(pre, rnd).1
}

/// The machine state right after construction: zeroed memory but for the
/// glyph table, cleared registers, stack, timers, keys and display, the
/// program counter on the load address, a redraw pending, and the default
/// quirks.
pub open spec fn init_mem() -> Seq<u8> {
    font_seq() + Seq::new(4016, |j: int| 0u8)
}

/// See `init_mem`.
pub open spec fn init_vm(e: EntropyV) -> VmV {
    VmV {
        mem: init_mem(),
        v: Seq::new(16, |j: int| 0u8),
        i: 0,
        pc: 512,
        gfx: cleared_gfx(),
        delay: 0,
        sound: 0,
        stack: Seq::empty(),
        keys: Seq::new(16, |j: int| false),
        draw: true,
        entropy: e,
        quirks: classic_quirks(),
    }
}

/// Memory after a program of length at most 3584 is loaded: the glyph
/// table, zeros up to the load address, the program, zeros to the end.
pub open spec fn loaded_mem(rom: Seq<u8>) -> Seq<u8> {
    font_seq() + Seq::new(432, |j: int| 0u8) + rom + Seq::new(
        (3584 - rom.len()) as nat,
        |j: int| 0u8,
    )
}

} // verus!
