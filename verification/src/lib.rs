//! A CHIP-8-class virtual machine: a fetch-decode-execute core over a flat
//! 4096-byte memory, sixteen 8-bit registers, a 16-entry call stack, two
//! countdown timers, a 16-key latch array, and a 64x32 monochrome framebuffer
//! updated by XOR-composited sprite blits.

pub mod alu;
pub mod cpu;
pub mod isa;
pub mod laws;

use vstd::prelude::*;

verus! {

/// Wrapping 8-bit arithmetic: the value modulo 256.
pub open spec fn wrap8(a: int) -> u8 {
    (a % 256) as u8
}

/// Wrapping 16-bit arithmetic: the value modulo 65536.
pub open spec fn wrap16(a: int) -> u16 {
    (a % 0x10000) as u16
}

/// Executable wrapping 8-bit addition.
pub fn wrapping_add8(a: u8, b: u8) -> (r: u8)
    ensures
        r == wrap8(a + b),
{
    (((a as u16) + (b as u16)) % 256) as u8
}

/// Executable wrapping 8-bit subtraction.
pub fn wrapping_sub8(a: u8, b: u8) -> (r: u8)
    ensures
        r == wrap8(a - b),
{
    (((a as u16) + 256 - (b as u16)) % 256) as u8
}

/// Executable wrapping 16-bit addition.
pub fn wrapping_add16(a: u16, b: u16) -> (r: u16)
    ensures
        r == wrap16(a + b),
{
    (((a as u32) + (b as u32)) % 0x10000) as u16
}

} // verus!
