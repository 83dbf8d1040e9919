//! A CHIP-8 virtual machine: fetch, decode and execute a closed instruction
//! set over a byte-addressable memory, a register file, a monochrome
//! framebuffer, two timers and a sixteen-key input latch.
#![allow(non_snake_case)]

use vstd::prelude::*;

pub mod decode;
pub mod display;
pub mod entropy;
pub mod font;
pub mod laws;
pub mod semantics;
pub mod vm;

verus! {

/// Number of bytes of the address space.
pub open spec fn mem_size() -> int {
    4096
}

/// Lowest address at which a program is loaded.
pub open spec fn rom_base() -> int {
    512
}

/// Largest program that fits between the load address and the end of memory.
pub fn max_rom_len() -> (n: usize)
    ensures
        n == mem_size() - rom_base(),
{
    3584
}

} // verus!
