use vstd::prelude::*;

use crate::decode::{decode_bytes, op_nnn, Instr};
use crate::display::{
    cleared_gfx, collision_upto, draw_collision, draw_gfx, lemma_collision_full,
    lemma_covers_row_roll, lemma_covers_step, lemma_covers_zero, lemma_sprite_covers_full,
    sprite_covers, sprite_covers_upto,
};
use crate::entropy::{entropy_byte, entropy_next, entropy_wf, Entropy, EntropyV};
use crate::font::{font_seq, font_table};
use crate::semantics::{
    any_key, cur_instr, exec_instr, first_pressed, init_mem, init_vm, loaded_mem,
    spec_x00E0, spec_x00EE, spec_x1NNN, spec_x2NNN, spec_x3XNN,
    spec_x4XNN, spec_x5XY0, spec_x6XNN, spec_x7XNN, spec_x8XY0, spec_x8XY1, spec_x8XY2, spec_x8XY3,
    spec_x8XY4, spec_x8XY5, spec_x8XY6, spec_x8XY7, spec_x8XYE, spec_x9XY0, spec_xANNN, spec_xBNNN,
    spec_xCXNN, spec_xDXYN, spec_xEX9E, spec_xEXA1, spec_xFX07, spec_xFX0A, spec_xFX15, spec_xFX18,
    spec_xFX1E, spec_xFX29, spec_xFX33, spec_xFX55, spec_xFX65, step_draws_entropy, step_fetch_ok,
    step_matches, step_spec, tick_timers, vm_wf, Fault, LoadError, Quirks, StepResult, VmV,
};

verus! {

/// The machine itself. It owns memory, registers, call stack, timers,
/// display and key latch exclusively; the host talks to it through `load`,
/// `step`, `set_key` and the read accessors. Its mathematical view is a
/// `VmV`.
pub struct State {
    memory: Vec<u8>,
    v: Vec<u8>,
    i: u16,
    pc: u16,
    gfx: Vec<bool>,
    delay_timer: u8,
    sound_timer: u8,
    stack: Vec<u16>,
    keys: Vec<bool>,
    draw_flag: bool,
    entropy: Entropy,
    quirks: Quirks,
}

impl View for State {
    type V = VmV;

    closed spec fn view(&self) -> VmV {
        VmV {
            mem: self.memory@,
            v: self.v@,
            i: self.i,
            pc: self.pc,
            gfx: self.gfx@,
            delay: self.delay_timer,
            sound: self.sound_timer,
            stack: self.stack@,
            keys: self.keys@,
            draw: self.draw_flag,
            entropy: self.entropy@,
            quirks: self.quirks,
        }
    }
}

impl State {
    /// The structural invariant: every component has its fixed size.
    pub open spec fn wf(&self) -> bool {
        vm_wf(self@)
    }

    /// A fresh machine: memory zeroed but for the glyph table, registers,
    /// stack, timers and keys cleared, the display blank with a redraw
    /// pending, the program counter on the load address, and the default
    /// quirks.
    pub fn new(entropy: Entropy) -> (s: State)
        requires
            entropy_wf(entropy@),
        ensures
            s.wf(),
            s@ == init_vm(entropy@),
    {
        let mut memory = font_table();
        while memory.len() < 4096
            invariant
                80 <= memory@.len() <= 4096,
                forall|j: int| 0 <= j < 80 ==> memory@[j] == font_seq()[j],
                forall|j: int| 80 <= j < memory@.len() ==> memory@[j] == 0u8,
            decreases 4096 - memory@.len(),
        {
            memory.push(0);
        }
        let mut v: Vec<u8> = Vec::new();
        while v.len() < 16
            invariant
                v@.len() <= 16,
                forall|j: int| 0 <= j < v@.len() ==> v@[j] == 0u8,
            decreases 16 - v@.len(),
        {
            v.push(0);
        }
        let mut gfx: Vec<bool> = Vec::new();
        while gfx.len() < 2048
            invariant
                gfx@.len() <= 2048,
                forall|j: int| 0 <= j < gfx@.len() ==> !gfx@[j],
            decreases 2048 - gfx@.len(),
        {
            gfx.push(false);
        }
        let mut keys: Vec<bool> = Vec::new();
        while keys.len() < 16
            invariant
                keys@.len() <= 16,
                forall|j: int| 0 <= j < keys@.len() ==> !keys@[j],
            decreases 16 - keys@.len(),
        {
            keys.push(false);
        }
        let stack: Vec<u16> = Vec::new();
        let s = State {
            memory,
            v,
            i: 0,
            pc: 512,
            gfx,
            delay_timer: 0,
            sound_timer: 0,
            stack,
            keys,
            draw_flag: true,
            entropy,
            quirks: Quirks::classic(),
        };
        proof {
            assert(s@.mem =~= init_mem());
            assert(s@.v =~= Seq::new(16, |j: int| 0u8));
            assert(s@.gfx =~= cleared_gfx());
            assert(s@.keys =~= Seq::new(16, |j: int| false));
            assert(s@.stack =~= Seq::<u16>::empty());
            assert(s@ =~= init_vm(entropy@));
        }
        s
    }

    /// Loads a program: rebuilds memory as the glyph table, zeros up to the
    /// load address, the program bytes, and zeros to the end. Fails, leaving
    /// the machine exactly as it was, when the program does not fit.
    pub fn load(&mut self, rom: &Vec<u8>) -> (r: Result<(), LoadError>)
        requires
            old(self).wf(),
        ensures
            final(self).wf(),
            rom@.len() > 3584 ==> r == Err::<(), LoadError>(LoadError::TooLarge) && final(self)@
                == old(self)@,
            rom@.len() <= 3584 ==> r == Ok::<(), LoadError>(()) && final(self)@ == (VmV {
                mem: loaded_mem(rom@),
                ..old(self)@
            }),
    {
        if rom.len() > 3584 {
            return Err(LoadError::TooLarge);
        }
        let mut memory = font_table();
        while memory.len() < 512
            invariant
                80 <= memory@.len() <= 512,
                forall|j: int| 0 <= j < 80 ==> memory@[j] == font_seq()[j],
                forall|j: int| 80 <= j < memory@.len() ==> memory@[j] == 0u8,
            decreases 512 - memory@.len(),
        {
            memory.push(0);
        }
        let mut t: usize = 0;
        while t < rom.len()
            invariant
                t <= rom@.len() <= 3584,
                memory@.len() == 512 + t,
                forall|j: int| 0 <= j < 80 ==> memory@[j] == font_seq()[j],
                forall|j: int| 80 <= j < 512 ==> memory@[j] == 0u8,
                forall|j: int| 0 <= j < t ==> memory@[512 + j] == rom@[j],
            decreases rom@.len() - t,
        {
            memory.push(rom[t]);
            t += 1;
        }
        while memory.len() < 4096
            invariant
                512 + rom@.len() <= memory@.len() <= 4096,
                rom@.len() <= 3584,
                forall|j: int| 0 <= j < 80 ==> memory@[j] == font_seq()[j],
                forall|j: int| 80 <= j < 512 ==> memory@[j] == 0u8,
                forall|j: int| 0 <= j < rom@.len() ==> memory@[512 + j] == rom@[j],
                forall|j: int| 512 + rom@.len() <= j < memory@.len() ==> memory@[j] == 0u8,
            decreases 4096 - memory@.len(),
        {
            memory.push(0);
        }
        self.memory = memory;
        proof {
            assert(self@.mem =~= loaded_mem(rom@));
            assert(self@ =~= (VmV { mem: loaded_mem(rom@), ..old(self)@ }));
        }
        Ok(())
    }

    /// Records a key going down or up. Only the host calls this; the
    /// executor just reads the latch.
    pub fn set_key(&mut self, index: usize, pressed: bool)
        requires
            old(self).wf(),
            index < 16,
        ensures
            final(self).wf(),
            final(self)@ == (VmV {
                keys: old(self)@.keys.update(index as int, pressed),
                ..old(self)@
            }),
    {
        self.keys.set(index, pressed);
    }

    /// Replaces the quirk selection.
    pub fn set_quirks(&mut self, quirks: Quirks)
        requires
            old(self).wf(),
        ensures
            final(self).wf(),
            final(self)@ == (VmV { quirks, ..old(self)@ }),
    {
        self.quirks = quirks;
    }

    /// The framebuffer, row-major: the pixel at column x of row y sits at
    /// index y * 64 + x; true means lit.
    pub fn get_gfx(&self) -> (r: &Vec<bool>)
        ensures
            r@ == self@.gfx,
    {
        &self.gfx
    }

    /// The program counter.
    pub fn get_pc(&self) -> (r: u16)
        ensures
            r == self@.pc,
    {
        self.pc
    }

    /// The index register.
    pub fn get_i(&self) -> (r: u16)
        ensures
            r == self@.i,
    {
        self.i
    }

    /// General register number `x`.
    pub fn get_reg(&self, x: u8) -> (r: u8)
        requires
            self.wf(),
            x < 16,
        ensures
            r == self@.v[x as int],
    {
        self.v[x as usize]
    }

    /// The delay timer.
    pub fn get_delay(&self) -> (r: u8)
        ensures
            r == self@.delay,
    {
        self.delay_timer
    }

    /// The sound timer.
    pub fn get_sound(&self) -> (r: u8)
        ensures
            r == self@.sound,
    {
        self.sound_timer
    }

    /// How many calls are in progress.
    pub fn stack_depth(&self) -> (r: usize)
        ensures
            r == self@.stack.len(),
    {
        self.stack.len()
    }

    /// Whether a redraw is pending.
    pub fn get_draw_flag(&self) -> (r: bool)
        ensures
            r == self@.draw,
    {
        self.draw_flag
    }

    /// The host calls this after it has rendered a frame.
    pub fn clear_draw_flag(&mut self)
        requires
            old(self).wf(),
        ensures
            final(self).wf(),
            final(self)@ == (VmV { draw: false, ..old(self)@ }),
    {
        self.draw_flag = false;
    }

    /// The twelve-bit address immediate of the instruction word at the
    /// program counter.
    pub fn NNN(&self) -> (r: u16)
        requires
            self.wf(),
            self@.pc + 1 < 4096,
        ensures
            r == op_nnn(self@.mem[self@.pc as int], self@.mem[self@.pc as int + 1]),
    {
        let hi = self.memory[self.pc as usize];
        let lo = self.memory[self.pc as usize + 1];
        (((hi & 0x0F) as u16) << 8) | (lo as u16)
    }

    /// The byte immediate of the instruction word at the program counter.
    pub fn NN(&self) -> (r: u8)
        requires
            self.wf(),
            self@.pc + 1 < 4096,
        ensures
            r == self@.mem[self@.pc as int + 1],
    {
        self.memory[self.pc as usize + 1]
    }

    /// Clear the display; a redraw becomes pending.
    pub fn x00E0(&mut self)
        requires
            old(self).wf(),
            old(self)@.pc + 1 < 4096,
        ensures
            final(self).wf(),
            final(self)@ == spec_x00E0(old(self)@),
    {
        let mut g: Vec<bool> = Vec::new();
        while g.len() < 2048
            invariant
                g@.len() <= 2048,
                forall|j: int| 0 <= j < g@.len() ==> !g@[j],
            decreases 2048 - g@.len(),
        {
            g.push(false);
        }
        self.gfx = g;
        self.draw_flag = true;
        self.pc = self.pc + 2;
        proof {
            assert(self@.gfx =~= cleared_gfx());
            assert(self@ =~= spec_x00E0(old(self)@));
        }
    }

    /// Return from a subroutine: pop the youngest return address into the
    /// program counter; a fault when no call is in progress.
    pub fn x00EE(&mut self) -> (r: Result<(), Fault>)
        requires
            old(self).wf(),
        ensures
            final(self).wf(),
            final(self)@ == spec_x00EE(old(self)@).0,
            r == spec_x00EE(old(self)@).1,
    {
        match self.stack.pop() {
            None => Err(Fault::StackUnderflow),
            Some(addr) => {
                self.pc = addr;
                proof {
                    assert(self@ =~= spec_x00EE(old(self)@).0);
                }
                Ok(())
            },
        }
    }

    /// Jump to the address.
    pub fn x1NNN(&mut self, nnn: u16)
        requires
            old(self).wf(),
        ensures
            final(self).wf(),
            final(self)@ == spec_x1NNN(old(self)@, nnn),
    {
        self.pc = nnn;
    }

    /// Call the subroutine at the address: push the address of the
    /// following instruction and jump; a fault when sixteen calls are
    /// already in progress.
    pub fn x2NNN(&mut self, nnn: u16) -> (r: Result<(), Fault>)
        requires
            old(self).wf(),
            old(self)@.pc + 1 < 4096,
        ensures
            final(self).wf(),
            final(self)@ == spec_x2NNN(old(self)@, nnn).0,
            r == spec_x2NNN(old(self)@, nnn).1,
    {
        if self.stack.len() >= 16 {
            return Err(Fault::StackOverflow);
        }
        let ret = self.pc + 2;
        self.stack.push(ret);
        self.pc = nnn;
        Ok(())
    }

    /// Skip the next instruction when VX equals the immediate: the program
    /// counter moves four bytes on instead of two.
    pub fn x3XNN(&mut self, x: u8, nn: u8)
        requires
            old(self).wf(),
            x < 16,
            old(self)@.pc + 1 < 4096,
        ensures
            final(self).wf(),
            final(self)@ == spec_x3XNN(old(self)@, x, nn),
    {
        if self.v[x as usize] == nn {
            self.pc = self.pc + 4;
        } else {
            self.pc = self.pc + 2;
        }
    }

    /// Skip the next instruction when VX differs from the immediate.
    pub fn x4XNN(&mut self, x: u8, nn: u8)
        requires
            old(self).wf(),
            x < 16,
            old(self)@.pc + 1 < 4096,
        ensures
            final(self).wf(),
            final(self)@ == spec_x4XNN(old(self)@, x, nn),
    {
        if self.v[x as usize] != nn {
            self.pc = self.pc + 4;
        } else {
            self.pc = self.pc + 2;
        }
    }

    /// Skip the next instruction when VX equals VY.
    pub fn x5XY0(&mut self, x: u8, y: u8)
        requires
            old(self).wf(),
            x < 16,
            y < 16,
            old(self)@.pc + 1 < 4096,
        ensures
            final(self).wf(),
            final(self)@ == spec_x5XY0(old(self)@, x, y),
    {
        if self.v[x as usize] == self.v[y as usize] {
            self.pc = self.pc + 4;
        } else {
            self.pc = self.pc + 2;
        }
    }

    /// VX := the immediate.
    pub fn x6XNN(&mut self, x: u8, nn: u8)
        requires
            old(self).wf(),
            x < 16,
            old(self)@.pc + 1 < 4096,
        ensures
            final(self).wf(),
            final(self)@ == spec_x6XNN(old(self)@, x, nn),
    {
        self.v.set(x as usize, nn);
        self.pc = self.pc + 2;
    }

    /// VX := VX plus the immediate, wrapping to eight bits; VF untouched.
    pub fn x7XNN(&mut self, x: u8, nn: u8)
        requires
            old(self).wf(),
            x < 16,
            old(self)@.pc + 1 < 4096,
        ensures
            final(self).wf(),
            final(self)@ == spec_x7XNN(old(self)@, x, nn),
    {
        let sum: u16 = self.v[x as usize] as u16 + nn as u16;
        self.v.set(x as usize, (sum % 256) as u8);
        self.pc = self.pc + 2;
    }

    /// VX := VY.
    pub fn x8XY0(&mut self, x: u8, y: u8)
        requires
            old(self).wf(),
            x < 16,
            y < 16,
            old(self)@.pc + 1 < 4096,
        ensures
            final(self).wf(),
            final(self)@ == spec_x8XY0(old(self)@, x, y),
    {
        let vy = self.v[y as usize];
        self.v.set(x as usize, vy);
        self.pc = self.pc + 2;
    }

    /// VX := VX | VY.
    pub fn x8XY1(&mut self, x: u8, y: u8)
        requires
            old(self).wf(),
            x < 16,
            y < 16,
            old(self)@.pc + 1 < 4096,
        ensures
            final(self).wf(),
            final(self)@ == spec_x8XY1(old(self)@, x, y),
    {
        let r = self.v[x as usize] | self.v[y as usize];
        self.v.set(x as usize, r);
        self.pc = self.pc + 2;
    }

    /// VX := VX & VY.
    pub fn x8XY2(&mut self, x: u8, y: u8)
        requires
            old(self).wf(),
            x < 16,
            y < 16,
            old(self)@.pc + 1 < 4096,
        ensures
            final(self).wf(),
            final(self)@ == spec_x8XY2(old(self)@, x, y),
    {
        let r = self.v[x as usize] & self.v[y as usize];
        self.v.set(x as usize, r);
        self.pc = self.pc + 2;
    }

    /// VX := VX ^ VY.
    pub fn x8XY3(&mut self, x: u8, y: u8)
        requires
            old(self).wf(),
            x < 16,
            y < 16,
            old(self)@.pc + 1 < 4096,
        ensures
            final(self).wf(),
            final(self)@ == spec_x8XY3(old(self)@, x, y),
    {
        let r = self.v[x as usize] ^ self.v[y as usize];
        self.v.set(x as usize, r);
        self.pc = self.pc + 2;
    }

    /// VX := VX + VY wrapped to eight bits; VF := 1 exactly when the true
    /// sum passes 255, else 0. When X is the flag register the flag wins.
    pub fn x8XY4(&mut self, x: u8, y: u8)
        requires
            old(self).wf(),
            x < 16,
            y < 16,
            old(self)@.pc + 1 < 4096,
        ensures
            final(self).wf(),
            final(self)@ == spec_x8XY4(old(self)@, x, y),
    {
        let sum: u16 = self.v[x as usize] as u16 + self.v[y as usize] as u16;
        self.v.set(x as usize, (sum % 256) as u8);
        self.v.set(15, if sum > 255 { 1 } else { 0 });
        self.pc = self.pc + 2;
    }

    /// VX := VX - VY wrapped to eight bits; VF := 1 exactly when VX >= VY
    /// (no borrow), else 0. When X is the flag register the flag wins.
    pub fn x8XY5(&mut self, x: u8, y: u8)
        requires
            old(self).wf(),
            x < 16,
            y < 16,
            old(self)@.pc + 1 < 4096,
        ensures
            final(self).wf(),
            final(self)@ == spec_x8XY5(old(self)@, x, y),
    {
        let a = self.v[x as usize];
        let b = self.v[y as usize];
        let res: u8 = if a >= b {
            a - b
        } else {
            ((a as u16 + 256) - b as u16) as u8
        };
        proof {
            lemma_wrap_sub(a, b);
        }
        self.v.set(x as usize, res);
        self.v.set(15, if a >= b { 1 } else { 0 });
        self.pc = self.pc + 2;
    }

    /// Shift right by one into VX; VF := the bit shifted out. The shift
    /// reads VX, or VY under the shift quirk. When X is the flag register
    /// the flag wins.
    pub fn x8XY6(&mut self, x: u8, y: u8)
        requires
            old(self).wf(),
            x < 16,
            y < 16,
            old(self)@.pc + 1 < 4096,
        ensures
            final(self).wf(),
            final(self)@ == spec_x8XY6(old(self)@, x, y),
    {
        let src = if self.quirks.shift_reads_vy {
            self.v[y as usize]
        } else {
            self.v[x as usize]
        };
        self.v.set(x as usize, src / 2);
        self.v.set(15, src % 2);
        self.pc = self.pc + 2;
    }

    /// VX := VY - VX wrapped to eight bits; VF := 1 exactly when VY >= VX
    /// (no borrow), else 0. When X is the flag register the flag wins.
    pub fn x8XY7(&mut self, x: u8, y: u8)
        requires
            old(self).wf(),
            x < 16,
            y < 16,
            old(self)@.pc + 1 < 4096,
        ensures
            final(self).wf(),
            final(self)@ == spec_x8XY7(old(self)@, x, y),
    {
        let a = self.v[y as usize];
        let b = self.v[x as usize];
        let res: u8 = if a >= b {
            a - b
        } else {
            ((a as u16 + 256) - b as u16) as u8
        };
        proof {
            lemma_wrap_sub(a, b);
        }
        self.v.set(x as usize, res);
        self.v.set(15, if a >= b { 1 } else { 0 });
        self.pc = self.pc + 2;
    }

    /// Shift left by one into VX; VF := the bit shifted out. The shift
    /// reads VX, or VY under the shift quirk. When X is the flag register
    /// the flag wins.
    pub fn x8XYE(&mut self, x: u8, y: u8)
        requires
            old(self).wf(),
            x < 16,
            y < 16,
            old(self)@.pc + 1 < 4096,
        ensures
            final(self).wf(),
            final(self)@ == spec_x8XYE(old(self)@, x, y),
    {
        let src = if self.quirks.shift_reads_vy {
            self.v[y as usize]
        } else {
            self.v[x as usize]
        };
        let doubled: u16 = src as u16 * 2;
        self.v.set(x as usize, (doubled % 256) as u8);
        self.v.set(15, src / 128);
        self.pc = self.pc + 2;
    }

    /// Skip the next instruction when VX differs from VY.
    pub fn x9XY0(&mut self, x: u8, y: u8)
        requires
            old(self).wf(),
            x < 16,
            y < 16,
            old(self)@.pc + 1 < 4096,
        ensures
            final(self).wf(),
            final(self)@ == spec_x9XY0(old(self)@, x, y),
    {
        if self.v[x as usize] != self.v[y as usize] {
            self.pc = self.pc + 4;
        } else {
            self.pc = self.pc + 2;
        }
    }

    /// I := the address.
    pub fn xANNN(&mut self, nnn: u16)
        requires
            old(self).wf(),
            old(self)@.pc + 1 < 4096,
        ensures
            final(self).wf(),
            final(self)@ == spec_xANNN(old(self)@, nnn),
    {
        self.i = nnn;
        self.pc = self.pc + 2;
    }

    /// Jump to the address plus an offset register, modulo the sixteen-bit
    /// space: register 0, or under the jump quirk the register named by the
    /// high nibble of the address.
    pub fn xBNNN(&mut self, nnn: u16)
        requires
            old(self).wf(),
            nnn < 4096,
        ensures
            final(self).wf(),
            final(self)@ == spec_xBNNN(old(self)@, nnn),
    {
        let off: u8 = if self.quirks.jump_offset_vx {
            self.v[(nnn / 256) as usize]
        } else {
            self.v[0]
        };
        self.pc = nnn + off as u16;
    }

    /// VX := the given random byte masked with the immediate. The byte
    /// comes from the entropy source; `step` draws it and passes it in.
    pub fn xCXNN(&mut self, x: u8, nn: u8, rnd: u8)
        requires
            old(self).wf(),
            x < 16,
            old(self)@.pc + 1 < 4096,
        ensures
            final(self).wf(),
            final(self)@ == spec_xCXNN(old(self)@, x, nn, rnd),
    {
        self.v.set(x as usize, rnd & nn);
        self.pc = self.pc + 2;
    }

    /// Skip the next instruction when the key named by the low nibble of VX
    /// is pressed.
    pub fn xEX9E(&mut self, x: u8)
        requires
            old(self).wf(),
            x < 16,
            old(self)@.pc + 1 < 4096,
        ensures
            final(self).wf(),
            final(self)@ == spec_xEX9E(old(self)@, x),
    {
        let key = self.v[x as usize] % 16;
        if self.keys[key as usize] {
            self.pc = self.pc + 4;
        } else {
            self.pc = self.pc + 2;
        }
    }

    /// Skip the next instruction when the key named by the low nibble of VX
    /// is released.
    pub fn xEXA1(&mut self, x: u8)
        requires
            old(self).wf(),
            x < 16,
            old(self)@.pc + 1 < 4096,
        ensures
            final(self).wf(),
            final(self)@ == spec_xEXA1(old(self)@, x),
    {
        let key = self.v[x as usize] % 16;
        if !self.keys[key as usize] {
            self.pc = self.pc + 4;
        } else {
            self.pc = self.pc + 2;
        }
    }

    /// VX := the delay timer.
    pub fn xFX07(&mut self, x: u8)
        requires
            old(self).wf(),
            x < 16,
            old(self)@.pc + 1 < 4096,
        ensures
            final(self).wf(),
            final(self)@ == spec_xFX07(old(self)@, x),
    {
        let d = self.delay_timer;
        self.v.set(x as usize, d);
        self.pc = self.pc + 2;
    }

    /// Delay timer := VX.
    pub fn xFX15(&mut self, x: u8)
        requires
            old(self).wf(),
            x < 16,
            old(self)@.pc + 1 < 4096,
        ensures
            final(self).wf(),
            final(self)@ == spec_xFX15(old(self)@, x),
    {
        self.delay_timer = self.v[x as usize];
        self.pc = self.pc + 2;
    }

    /// Sound timer := VX.
    pub fn xFX18(&mut self, x: u8)
        requires
            old(self).wf(),
            x < 16,
            old(self)@.pc + 1 < 4096,
        ensures
            final(self).wf(),
            final(self)@ == spec_xFX18(old(self)@, x),
    {
        self.sound_timer = self.v[x as usize];
        self.pc = self.pc + 2;
    }

    /// I := I + VX modulo the sixteen-bit space; under the index quirk VF
    /// also records whether the true sum passed the end of the address
    /// space. The index may hold a value past the address space: only an
    /// access through it faults.
    pub fn xFX1E(&mut self, x: u8)
        requires
            old(self).wf(),
            x < 16,
            old(self)@.pc + 1 < 4096,
        ensures
            final(self).wf(),
            final(self)@ == spec_xFX1E(old(self)@, x),
    {
        let sum: u32 = self.i as u32 + self.v[x as usize] as u32;
        if self.quirks.index_add_carry {
            self.v.set(15, if sum > 0xFFF { 1 } else { 0 });
        }
        self.i = (sum % 0x10000) as u16;
        self.pc = self.pc + 2;
    }

    /// I := the glyph address of the value in VX: five bytes per glyph from
    /// the bottom of memory.
    pub fn xFX29(&mut self, x: u8)
        requires
            old(self).wf(),
            x < 16,
            old(self)@.pc + 1 < 4096,
        ensures
            final(self).wf(),
            final(self)@ == spec_xFX29(old(self)@, x),
    {
        self.i = self.v[x as usize] as u16 * 5;
        self.pc = self.pc + 2;
    }
    /// Draw the n-row sprite stored at I at (VX, VY): XOR each sprite bit
    /// onto the display with per-axis wraparound, set VF to 1 exactly when
    /// a lit pixel went out, and mark the display dirty. A fault, leaving
    /// the state unchanged, when the sprite bytes would be read from past
    /// the end of memory.
    pub fn xDXYN(&mut self, x: u8, y: u8, n: u8) -> (r: Result<(), Fault>)
        requires
            old(self).wf(),
            x < 16,
            y < 16,
            n < 16,
            old(self)@.pc + 1 < 4096,
        ensures
            final(self).wf(),
            final(self)@ == spec_xDXYN(old(self)@, x, y, n).0,
            r == spec_xDXYN(old(self)@, x, y, n).1,
    {
        if self.i as usize + n as usize > 4096 {
            return Err(Fault::AddressOutOfRange);
        }
        let i0 = self.i as usize;
        let x0 = (self.v[x as usize] % 64) as usize;
        let y0 = (self.v[y as usize] % 32) as usize;
        let ghost pre = self@;
        let ghost rows = pre.mem.subrange(i0 as int, i0 + n as int);
        let ghost vx0 = pre.v[x as int] as int;
        let ghost vy0 = pre.v[y as int] as int;
        let mut collided = false;
        let mut row: usize = 0;
        let ghost mut kg: int = 0;
        proof {
            assert(!collision_upto(pre.gfx, rows, vx0, vy0, 0, 0)) by {
                if collision_upto(pre.gfx, rows, vx0, vy0, 0, 0) {
                    let (qx, qy) = choose|qx: int, qy: int|
                        0 <= qx < 64 && 0 <= qy < 32 && pre.gfx[qy * 64 + qx]
                            && #[trigger] sprite_covers_upto(rows, vx0, vy0, qx, qy, 0, 0);
                    lemma_covers_zero(rows, vx0, vy0, qx, qy);
                }
            }
            assert forall|px2: int, py2: int| 0 <= px2 < 64 && 0 <= py2 < 32 implies self@.gfx[py2
                * 64 + px2] == (pre.gfx[py2 * 64 + px2] != #[trigger] sprite_covers_upto(
                rows,
                vx0,
                vy0,
                px2,
                py2,
                0,
                0,
            )) by {
                lemma_covers_zero(rows, vx0, vy0, px2, py2);
            }
        }
        while row < n as usize
            invariant
                old(self).wf(),
                x < 16,
                y < 16,
                n < 16,
                pre == old(self)@,
                i0 == pre.i,
                i0 + n <= 4096,
                vx0 == pre.v[x as int] as int,
                vy0 == pre.v[y as int] as int,
                x0 == vx0 % 64,
                y0 == vy0 % 32,
                rows == pre.mem.subrange(i0 as int, i0 + n as int),
                rows.len() == n as int,
                self@ == (VmV { gfx: self@.gfx, ..pre }),
                self@.gfx.len() == 2048,
                row <= n as usize,
                kg == row as int,
                forall|px2: int, py2: int|
                    0 <= px2 < 64 && 0 <= py2 < 32 ==> self@.gfx[py2 * 64 + px2] == (pre.gfx[py2
                        * 64 + px2] != #[trigger] sprite_covers_upto(
                        rows,
                        vx0,
                        vy0,
                        px2,
                        py2,
                        kg,
                        0,
                    )),
                collided ==> draw_collision(pre.gfx, rows, vx0, vy0),
                !collided ==> !collision_upto(pre.gfx, rows, vx0, vy0, kg, 0),
            decreases n as int - row,
        {
            let byte = self.memory[i0 + row];
            let mut col: usize = 0;
            let ghost mut cg: int = 0;
            while col < 8
                invariant
                    old(self).wf(),
                    x < 16,
                    y < 16,
                    n < 16,
                    pre == old(self)@,
                    i0 == pre.i,
                    i0 + n <= 4096,
                    vx0 == pre.v[x as int] as int,
                    vy0 == pre.v[y as int] as int,
                    x0 == vx0 % 64,
                    y0 == vy0 % 32,
                    rows == pre.mem.subrange(i0 as int, i0 + n as int),
                    rows.len() == n as int,
                    self@ == (VmV { gfx: self@.gfx, ..pre }),
                    self@.gfx.len() == 2048,
                    row < n as usize,
                    kg == row as int,
                    col <= 8,
                    cg == col as int,
                    byte == rows[kg],
                    forall|px2: int, py2: int|
                        0 <= px2 < 64 && 0 <= py2 < 32 ==> self@.gfx[py2 * 64 + px2] == (
                        pre.gfx[py2 * 64 + px2] != #[trigger] sprite_covers_upto(
                            rows,
                            vx0,
                            vy0,
                            px2,
                            py2,
                            kg,
                            cg,
                        )),
                    collided ==> draw_collision(pre.gfx, rows, vx0, vy0),
                    !collided ==> !collision_upto(pre.gfx, rows, vx0, vy0, kg, cg),
                decreases 8 - col,
            {
                let ghost pxt = (vx0 % 64 + cg) % 64;
                let ghost pyt = (vy0 % 32 + kg) % 32;
                proof {
                    lemma_covers_step(rows, vx0, vy0, kg, cg);
                }
                let px = (x0 + col) % 64;
                let py = (y0 + row) % 32;
                let idx = py * 64 + px;
                proof {
                    assert(px as int == pxt);
                    assert(py as int == pyt);
                    assert(idx as int == pyt * 64 + pxt);
                    assert(!sprite_covers_upto(rows, vx0, vy0, pxt, pyt, kg, cg));
                }
                if byte & (0x80u8 >> (col as u8)) != 0 {
                    let hit = self.gfx[idx];
                    if hit {
                        collided = true;
                    }
                    self.gfx.set(idx, !hit);
                    proof {
                        assert(pre.gfx[idx as int] == hit);
                        assert((rows[kg] & (0x80u8 >> (cg as u8))) != 0);
                        assert(sprite_covers_upto(rows, vx0, vy0, pxt, pyt, kg, cg + 1));
                        assert forall|px2: int, py2: int|
                            0 <= px2 < 64 && 0 <= py2 < 32 implies self@.gfx[py2 * 64 + px2] == (
                        pre.gfx[py2 * 64 + px2] != #[trigger] sprite_covers_upto(
                            rows,
                            vx0,
                            vy0,
                            px2,
                            py2,
                            kg,
                            cg + 1,
                        )) by {
                            if px2 == pxt && py2 == pyt {
                                assert(py2 * 64 + px2 == idx as int);
                                assert(self@.gfx[idx as int] == !hit);
                            } else {
                                assert(py2 * 64 + px2 != idx as int);
                                assert(sprite_covers_upto(rows, vx0, vy0, px2, py2, kg, cg + 1)
                                    == sprite_covers_upto(rows, vx0, vy0, px2, py2, kg, cg));
                            }
                        }
                        if hit {
                            assert(sprite_covers(rows, vx0, vy0, pxt, pyt));
                            assert(pre.gfx[pyt * 64 + pxt]);
                            assert(draw_collision(pre.gfx, rows, vx0, vy0));
                        } else {
                            if !collided {
                                assert(!collision_upto(pre.gfx, rows, vx0, vy0, kg, cg + 1)) by {
                                    if collision_upto(pre.gfx, rows, vx0, vy0, kg, cg + 1) {
                                        let (qx, qy) = choose|qx: int, qy: int|
                                            0 <= qx < 64 && 0 <= qy < 32 && pre.gfx[qy * 64 + qx]
                                                && #[trigger] sprite_covers_upto(
                                                rows,
                                                vx0,
                                                vy0,
                                                qx,
                                                qy,
                                                kg,
                                                cg + 1,
                                            );
                                        if qx == pxt && qy == pyt {
                                            assert(pre.gfx[qy * 64 + qx] == hit);
                                            assert(false);
                                        } else {
                                            assert(sprite_covers_upto(
                                                rows,
                                                vx0,
                                                vy0,
                                                qx,
                                                qy,
                                                kg,
                                                cg,
                                            ));
                                            assert(collision_upto(
                                                pre.gfx,
                                                rows,
                                                vx0,
                                                vy0,
                                                kg,
                                                cg,
                                            ));
                                            assert(false);
                                        }
                                    }
                                }
                            }
                        }
                    }
                } else {
                    proof {
                        assert((rows[kg] & (0x80u8 >> (cg as u8))) == 0);
                        assert(!sprite_covers_upto(rows, vx0, vy0, pxt, pyt, kg, cg + 1));
                        assert forall|px2: int, py2: int|
                            0 <= px2 < 64 && 0 <= py2 < 32 implies self@.gfx[py2 * 64 + px2] == (
                        pre.gfx[py2 * 64 + px2] != #[trigger] sprite_covers_upto(
                            rows,
                            vx0,
                            vy0,
                            px2,
                            py2,
                            kg,
                            cg + 1,
                        )) by {
                            if px2 == pxt && py2 == pyt {
                                assert(!sprite_covers_upto(rows, vx0, vy0, px2, py2, kg, cg));
                            } else {
                                assert(sprite_covers_upto(rows, vx0, vy0, px2, py2, kg, cg + 1)
                                    == sprite_covers_upto(rows, vx0, vy0, px2, py2, kg, cg));
                            }
                        }
                        if !collided {
                            assert(!collision_upto(pre.gfx, rows, vx0, vy0, kg, cg + 1)) by {
                                if collision_upto(pre.gfx, rows, vx0, vy0, kg, cg + 1) {
                                    let (qx, qy) = choose|qx: int, qy: int|
                                        0 <= qx < 64 && 0 <= qy < 32 && pre.gfx[qy * 64 + qx]
                                            && #[trigger] sprite_covers_upto(
                                            rows,
                                            vx0,
                                            vy0,
                                            qx,
                                            qy,
                                            kg,
                                            cg + 1,
                                        );
                                    if qx == pxt && qy == pyt {
                                        assert(false);
                                    } else {
                                        assert(sprite_covers_upto(rows, vx0, vy0, qx, qy, kg, cg));
                                        assert(collision_upto(pre.gfx, rows, vx0, vy0, kg, cg));
                                        assert(false);
                                    }
                                }
                            }
                        }
                    }
                }
                proof {
                    cg = cg + 1;
                }
                col += 1;
            }
            proof {
                assert forall|px2: int, py2: int|
                    0 <= px2 < 64 && 0 <= py2 < 32 implies self@.gfx[py2 * 64 + px2] == (
                pre.gfx[py2 * 64 + px2] != #[trigger] sprite_covers_upto(
                    rows,
                    vx0,
                    vy0,
                    px2,
                    py2,
                    kg + 1,
                    0,
                )) by {
                    lemma_covers_row_roll(rows, vx0, vy0, px2, py2, kg);
                    assert(self@.gfx[py2 * 64 + px2] == (pre.gfx[py2 * 64 + px2]
                        != sprite_covers_upto(rows, vx0, vy0, px2, py2, kg, 8)));
                }
                if !collided {
                    assert(!collision_upto(pre.gfx, rows, vx0, vy0, kg + 1, 0)) by {
                        if collision_upto(pre.gfx, rows, vx0, vy0, kg + 1, 0) {
                            let (qx, qy) = choose|qx: int, qy: int|
                                0 <= qx < 64 && 0 <= qy < 32 && pre.gfx[qy * 64 + qx]
                                    && #[trigger] sprite_covers_upto(
                                    rows,
                                    vx0,
                                    vy0,
                                    qx,
                                    qy,
                                    kg + 1,
                                    0,
                                );
                            lemma_covers_row_roll(rows, vx0, vy0, qx, qy, kg);
                            assert(sprite_covers_upto(rows, vx0, vy0, qx, qy, kg, 8));
                            assert(collision_upto(pre.gfx, rows, vx0, vy0, kg, 8));
                            assert(false);
                        }
                    }
                }
                kg = kg + 1;
            }
            row += 1;
        }
        self.v.set(15, if collided { 1 } else { 0 });
        self.draw_flag = true;
        self.pc = self.pc + 2;
        proof {
            assert forall|p: int| 0 <= p < 2048 implies self@.gfx[p] == (pre.gfx[p]
                != sprite_covers(rows, vx0, vy0, p % 64, p / 64)) by {
                let px2 = p % 64;
                let py2 = p / 64;
                assert(p == py2 * 64 + px2);
                assert(self@.gfx[py2 * 64 + px2] == (pre.gfx[py2 * 64 + px2]
                    != sprite_covers_upto(rows, vx0, vy0, px2, py2, kg, 0)));
                lemma_sprite_covers_full(rows, vx0, vy0, px2, py2);
            }
            assert(self@.gfx =~= draw_gfx(pre.gfx, rows, vx0, vy0));
            lemma_collision_full(pre.gfx, rows, vx0, vy0);
            assert(collided == draw_collision(pre.gfx, rows, vx0, vy0));
            assert(self@ =~= spec_xDXYN(pre, x, y, n).0);
        }
        Ok(())
    }

    /// Wait for a key press: when no key is pressed nothing changes — the
    /// program counter stays on this instruction, so the next cycle waits
    /// again. Once a key is pressed, VX := the lowest pressed index and the
    /// program counter moves on.
    pub fn xFX0A(&mut self, x: u8)
        requires
            old(self).wf(),
            x < 16,
            old(self)@.pc + 1 < 4096,
        ensures
            final(self).wf(),
            final(self)@ == spec_xFX0A(old(self)@, x),
    {
        let mut k: usize = 0;
        while k < 16
            invariant
                old(self).wf(),
                self@ == old(self)@,
                x < 16,
                old(self)@.pc + 1 < 4096,
                k <= 16,
                forall|j: int| 0 <= j < k ==> !self@.keys[j],
            decreases 16 - k,
        {
            if self.keys[k] {
                proof {
                    lemma_first_pressed_from(self@.keys, 0, k as int);
                    assert(any_key(self@.keys));
                }
                self.v.set(x as usize, k as u8);
                self.pc = self.pc + 2;
                return ;
            }
            k += 1;
        }
        proof {
            assert(!any_key(self@.keys));
        }
    }

    /// Store the decimal digits of VX — hundreds, tens, ones — at I, I+1,
    /// I+2; a fault, leaving the state unchanged, when the three bytes
    /// would not fit below the end of memory.
    pub fn xFX33(&mut self, x: u8) -> (r: Result<(), Fault>)
        requires
            old(self).wf(),
            x < 16,
            old(self)@.pc + 1 < 4096,
        ensures
            final(self).wf(),
            final(self)@ == spec_xFX33(old(self)@, x).0,
            r == spec_xFX33(old(self)@, x).1,
    {
        if self.i as usize + 3 > 4096 {
            return Err(Fault::AddressOutOfRange);
        }
        let vx = self.v[x as usize];
        let i0 = self.i as usize;
        self.memory.set(i0, vx / 100);
        self.memory.set(i0 + 1, (vx / 10) % 10);
        self.memory.set(i0 + 2, vx % 10);
        self.pc = self.pc + 2;
        Ok(())
    }

    /// Store registers 0 through X, inclusive, to memory starting at I; a
    /// fault, leaving the state unchanged, when the block would pass the
    /// end of memory.
    pub fn xFX55(&mut self, x: u8) -> (r: Result<(), Fault>)
        requires
            old(self).wf(),
            x < 16,
            old(self)@.pc + 1 < 4096,
        ensures
            final(self).wf(),
            final(self)@ == spec_xFX55(old(self)@, x).0,
            r == spec_xFX55(old(self)@, x).1,
    {
        if self.i as usize + x as usize + 1 > 4096 {
            return Err(Fault::AddressOutOfRange);
        }
        let i0 = self.i as usize;
        let mut j: usize = 0;
        while j <= x as usize
            invariant
                old(self).wf(),
                x < 16,
                j <= x + 1,
                i0 == old(self)@.i,
                i0 + x + 1 <= 4096,
                self@ == (VmV { mem: self@.mem, ..old(self)@ }),
                self@.mem.len() == 4096,
                forall|t: int|
                    0 <= t < 4096 && !(i0 <= t < i0 + j) ==> self@.mem[t] == old(self)@.mem[t],
                forall|t: int| 0 <= t < j ==> self@.mem[i0 + t] == old(self)@.v[t],
            decreases x + 1 - j,
        {
            let b = self.v[j];
            self.memory.set(i0 + j, b);
            j += 1;
        }
        proof {
            assert(self@.mem =~= spec_xFX55(old(self)@, x).0.mem);
        }
        self.pc = self.pc + 2;
        proof {
            assert(self@ =~= spec_xFX55(old(self)@, x).0);
        }
        Ok(())
    }

    /// Load registers 0 through X, inclusive, from memory starting at I; a
    /// fault, leaving the state unchanged, when the block would pass the
    /// end of memory.
    pub fn xFX65(&mut self, x: u8) -> (r: Result<(), Fault>)
        requires
            old(self).wf(),
            x < 16,
            old(self)@.pc + 1 < 4096,
        ensures
            final(self).wf(),
            final(self)@ == spec_xFX65(old(self)@, x).0,
            r == spec_xFX65(old(self)@, x).1,
    {
        if self.i as usize + x as usize + 1 > 4096 {
            return Err(Fault::AddressOutOfRange);
        }
        let i0 = self.i as usize;
        let mut j: usize = 0;
        while j <= x as usize
            invariant
                old(self).wf(),
                x < 16,
                j <= x + 1,
                i0 == old(self)@.i,
                i0 + x + 1 <= 4096,
                self@ == (VmV { v: self@.v, ..old(self)@ }),
                self@.v.len() == 16,
                forall|t: int| j <= t < 16 ==> self@.v[t] == old(self)@.v[t],
                forall|t: int| 0 <= t < j ==> self@.v[t] == old(self)@.mem[i0 + t],
            decreases x + 1 - j,
        {
            let b = self.memory[i0 + j];
            self.v.set(j, b);
            j += 1;
        }
        proof {
            assert(self@.v =~= spec_xFX65(old(self)@, x).0.v);
        }
        self.pc = self.pc + 2;
        proof {
            assert(self@ =~= spec_xFX65(old(self)@, x).0);
        }
        Ok(())
    }

    /// One whole cycle: fetch the instruction word at the program counter,
    /// decode it, execute it, and on success tick the timers. Reports
    /// whether the display changed and whether the sound timer just reached
    /// zero; on a fault the machine is left exactly as it was. The cycle
    /// follows `step_spec` for the byte the entropy source yielded: exactly
    /// that byte when the source is a fixed sequence, some byte when it is
    /// the system generator, and any byte at all when the instruction is
    /// not the random one.
    #[verifier::rlimit(100)]
    pub fn step(&mut self) -> (r: Result<StepResult, Fault>)
        requires
            old(self).wf(),
        ensures
            final(self).wf(),
            exists|b: u8| #[trigger] step_matches(old(self)@, final(self)@, r, b),
            old(self)@.entropy matches EntropyV::Fixed(..) ==> step_matches(
                old(self)@,
                final(self)@,
                r,
                entropy_byte(old(self)@.entropy),
            ),
            !step_draws_entropy(old(self)@) ==> step_matches(old(self)@, final(self)@, r, 0),
    {
        let ghost pre = self@;
        let ghost eb = entropy_byte(pre.entropy);
        if self.pc >= 4095 {
            proof {
                assert(!step_fetch_ok(pre));
                assert(step_matches(pre, pre, Err::<StepResult, Fault>(Fault::AddressOutOfRange), 0));
                assert(step_matches(pre, pre, Err::<StepResult, Fault>(Fault::AddressOutOfRange), eb));
            }
            return Err(Fault::AddressOutOfRange);
        }
        let pc0 = self.pc as usize;
        let hi = self.memory[pc0];
        let lo = self.memory[pc0 + 1];
        let ins = decode_bytes(hi, lo);
        proof {
            assert(step_fetch_ok(pre));
            assert(ins == cur_instr(pre));
        }
        let ghost mut rnd_used: u8 = 0;
        let out: Result<(), Fault> = match ins {
            Instr::Cls => {
                self.x00E0();
                Ok(())
            },
            Instr::Ret => self.x00EE(),
            Instr::Jump { nnn } => {
                self.x1NNN(nnn);
                Ok(())
            },
            Instr::Call { nnn } => self.x2NNN(nnn),
            Instr::SkipEqImm { x, nn } => {
                self.x3XNN(x, nn);
                Ok(())
            },
            Instr::SkipNeImm { x, nn } => {
                self.x4XNN(x, nn);
                Ok(())
            },
            Instr::SkipEqReg { x, y } => {
                self.x5XY0(x, y);
                Ok(())
            },
            Instr::LoadImm { x, nn } => {
                self.x6XNN(x, nn);
                Ok(())
            },
            Instr::AddImm { x, nn } => {
                self.x7XNN(x, nn);
                Ok(())
            },
            Instr::Assign { x, y } => {
                self.x8XY0(x, y);
                Ok(())
            },
            Instr::Or { x, y } => {
                self.x8XY1(x, y);
                Ok(())
            },
            Instr::And { x, y } => {
                self.x8XY2(x, y);
                Ok(())
            },
            Instr::Xor { x, y } => {
                self.x8XY3(x, y);
                Ok(())
            },
            Instr::AddReg { x, y } => {
                self.x8XY4(x, y);
                Ok(())
            },
            Instr::SubReg { x, y } => {
                self.x8XY5(x, y);
                Ok(())
            },
            Instr::ShiftRight { x, y } => {
                self.x8XY6(x, y);
                Ok(())
            },
            Instr::SubRev { x, y } => {
                self.x8XY7(x, y);
                Ok(())
            },
            Instr::ShiftLeft { x, y } => {
                self.x8XYE(x, y);
                Ok(())
            },
            Instr::SkipNeReg { x, y } => {
                self.x9XY0(x, y);
                Ok(())
            },
            Instr::LoadIndex { nnn } => {
                self.xANNN(nnn);
                Ok(())
            },
            Instr::JumpOffset { nnn } => {
                self.xBNNN(nnn);
                Ok(())
            },
            Instr::Random { x, nn } => {
                let b = self.entropy.next_byte();
                proof {
                    rnd_used = b;
                }
                self.xCXNN(x, nn, b);
                Ok(())
            },
            Instr::Draw { x, y, n } => self.xDXYN(x, y, n),
            Instr::SkipKey { x } => {
                self.xEX9E(x);
                Ok(())
            },
            Instr::SkipNoKey { x } => {
                self.xEXA1(x);
                Ok(())
            },
            Instr::GetDelay { x } => {
                self.xFX07(x);
                Ok(())
            },
            Instr::WaitKey { x } => {
                self.xFX0A(x);
                Ok(())
            },
            Instr::SetDelay { x } => {
                self.xFX15(x);
                Ok(())
            },
            Instr::SetSound { x } => {
                self.xFX18(x);
                Ok(())
            },
            Instr::AddIndex { x } => {
                self.xFX1E(x);
                Ok(())
            },
            Instr::FontAddr { x } => {
                self.xFX29(x);
                Ok(())
            },
            Instr::StoreBcd { x } => self.xFX33(x),
            Instr::StoreRegs { x } => self.xFX55(x),
            Instr::LoadRegs { x } => self.xFX65(x),
            Instr::Illegal => Err(Fault::IllegalOpcode),
        };
        let ghost mid = self@;
        proof {
            assert(mid =~= (VmV {
                entropy: if ins matches Instr::Random { .. } {
                    entropy_next(pre.entropy)
                } else {
                    pre.entropy
                },
                ..exec_instr(pre, ins, rnd_used).0
            }));
            assert(out == exec_instr(pre, ins, rnd_used).1);
        }
        match out {
            Err(f) => {
                proof {
                    assert(exec_instr(pre, ins, rnd_used).0 == pre);
                    assert(mid == pre);
                    assert(step_matches(pre, pre, Err::<StepResult, Fault>(f), rnd_used));
                    assert(exec_instr(pre, ins, 0) == exec_instr(pre, ins, rnd_used));
                    assert(exec_instr(pre, ins, eb) == exec_instr(pre, ins, rnd_used));
                    assert(step_matches(pre, pre, Err::<StepResult, Fault>(f), 0));
                    assert(step_matches(pre, pre, Err::<StepResult, Fault>(f), eb));
                }
                Err(f)
            },
            Ok(()) => {
                let sound_was = self.sound_timer;
                if self.delay_timer > 0 {
                    self.delay_timer = self.delay_timer - 1;
                }
                if self.sound_timer > 0 {
                    self.sound_timer = self.sound_timer - 1;
                }
                let display_updated = matches!(ins, Instr::Cls) || matches!(
                    ins,
                    Instr::Draw { .. },
                );
                let res = StepResult { display_updated, sound_stopped: sound_was == 1 };
                proof {
                    assert(self@ =~= tick_timers(mid));
                    assert(step_spec(pre, rnd_used).0 == tick_timers(mid));
                    assert(step_spec(pre, rnd_used).1 == Ok::<StepResult, Fault>(res));
                    assert(step_matches(pre, self@, Ok::<StepResult, Fault>(res), rnd_used));
                    if !(ins matches Instr::Random { .. }) {
                        assert(exec_instr(pre, ins, 0) == exec_instr(pre, ins, rnd_used));
                        assert(exec_instr(pre, ins, eb) == exec_instr(pre, ins, rnd_used));
                        assert(step_matches(pre, self@, Ok::<StepResult, Fault>(res), 0));
                        assert(step_matches(pre, self@, Ok::<StepResult, Fault>(res), eb));
                    } else {
                        if pre.entropy matches EntropyV::Fixed(..) {
                            assert(rnd_used == eb);
                        }
                    }
                }
                Ok(res)
            },
        }
    }
}

/// The lowest pressed key at or after `j0` is `k`, when `k` is pressed and
/// nothing before it (from `j0` on) is.
proof fn lemma_first_pressed_from(keys: Seq<bool>, j0: int, k: int)
    requires
        0 <= j0 <= k < keys.len(),
        keys[k],
        forall|j: int| j0 <= j < k ==> !keys[j],
    ensures
        first_pressed(keys, j0) == k,
    decreases k - j0,
{
    if j0 < k {
        lemma_first_pressed_from(keys, j0 + 1, k);
    }
}

/// Subtraction of bytes wrapped to eight bits, written without the modulus.
proof fn lemma_wrap_sub(a: u8, b: u8)
    ensures
        (a - b) % 256 == if a >= b {
            a - b
        } else {
            a - b + 256
        },
{
    if a >= b {
        vstd::arithmetic::div_mod::lemma_small_mod((a - b) as nat, 256);
    } else {
        vstd::arithmetic::div_mod::lemma_mod_add_multiples_vanish(a - b, 256);
        vstd::arithmetic::div_mod::lemma_small_mod((a - b + 256) as nat, 256);
    }
}

} // verus!
