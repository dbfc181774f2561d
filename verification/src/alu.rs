//! The instruction executor: the mathematical semantics of every operation,
//! and the verified `execute` function that mutates the machine state
//! accordingly.
//!
//! Addressing policy: a computed memory address at or past the 4096-byte
//! bound saturates to the last byte, and sprite rows and columns saturate at
//! the framebuffer edge instead of wrapping; the index register and the
//! program counter wrap at 16 bits.

use vstd::prelude::*;

use crate::cpu::{blank_graph, Cpu, CpuV};
use crate::isa::{spec_decode, AluOp, ErrorKind, Instr};
use crate::{wrap16, wrap8, wrapping_add16, wrapping_add8, wrapping_sub8};

verus! {

/// A computed memory address, saturated to the 4096-byte memory.
pub open spec fn mem_clamp(a: int) -> int {
    if a < 4096 {
        a
    } else {
        4095
    }
}

/// A sprite row address, saturated to the 32 framebuffer rows.
pub open spec fn row_clamp(a: int) -> int {
    if a < 32 {
        a
    } else {
        31
    }
}

/// A sprite column address, saturated to the 64 framebuffer columns.
pub open spec fn col_clamp(a: int) -> int {
    if a < 64 {
        a
    } else {
        63
    }
}

/// A keypad index, saturated to the 16 keys.
pub open spec fn key_idx(k: u8) -> int {
    if k < 16 {
        k as int
    } else {
        15
    }
}

/// Bit `b` of a sprite row byte, in most-significant-bit-first order.
pub open spec fn sprite_pixel(row: u8, b: u8) -> bool {
    (row & (0x80u8 >> b)) != 0
}

/// XOR one sprite pixel into the framebuffer cell at `row`, `col` (already
/// clamped): the cell toggles, and the second component reports whether it
/// was on before (a collision).
pub open spec fn toggle_cell(g: Seq<Seq<bool>>, row: int, col: int) -> (Seq<Seq<bool>>, bool) {
    let was = g[row][col];
    (g.update(row, g[row].update(col, !was)), was)
}

/// Blit the first `nb` bits of the sprite row `byte` onto framebuffer row
/// `row` starting at column `vx`, accumulating the collision flag.
pub open spec fn blit_row_upto(
    g: Seq<Seq<bool>>,
    hit: bool,
    byte: u8,
    vx: u8,
    row: int,
    nb: int,
) -> (Seq<Seq<bool>>, bool)
    decreases nb,
{
    if nb <= 0 {
        (g, hit)
    } else {
        let prev = blit_row_upto(g, hit, byte, vx, row, nb - 1);
        let b = nb - 1;
        if sprite_pixel(byte, b as u8) {
            let t = toggle_cell(prev.0, row, col_clamp(vx + b));
            (t.0, prev.1 || t.1)
        } else {
            prev
        }
    }
}

/// Blit the first `nr` rows of the sprite read from memory at `i` onto the
/// framebuffer at column `vx`, row `vy`, accumulating the collision flag.
pub open spec fn blit_upto(
    mem: Seq<u8>,
    g: Seq<Seq<bool>>,
    hit: bool,
    i: u16,
    vx: u8,
    vy: u8,
    nr: int,
) -> (Seq<Seq<bool>>, bool)
    decreases nr,
{
    if nr <= 0 {
        (g, hit)
    } else {
        let prev = blit_upto(mem, g, hit, i, vx, vy, nr - 1);
        let r = nr - 1;
        blit_row_upto(prev.0, prev.1, mem[mem_clamp(i + r)], vx, row_clamp(vy + r), 8)
    }
}

/// The highest pressed key among the first `n` keys, matching a scan in
/// ascending order where the last match wins.
pub open spec fn highest_key_upto(key: Seq<u8>, n: int) -> Option<u8>
    decreases n,
{
    if n <= 0 {
        None
    } else if key[n - 1] != 0 {
        Some((n - 1) as u8)
    } else {
        highest_key_upto(key, n - 1)
    }
}

/// The highest pressed key of the 16-key latch, if any key is pressed.
pub open spec fn highest_key(key: Seq<u8>) -> Option<u8> {
    highest_key_upto(key, 16)
}

/// Memory after registers 0..k are copied to consecutive saturated addresses
/// starting at `i`.
pub open spec fn store_upto(mem: Seq<u8>, reg: Seq<u8>, i: u16, k: int) -> Seq<u8>
    decreases k,
{
    if k <= 0 {
        mem
    } else {
        store_upto(mem, reg, i, k - 1).update(mem_clamp(i + k - 1), reg[k - 1])
    }
}

/// Registers after entries 0..k are filled from consecutive saturated
/// addresses starting at `i`.
pub open spec fn load_upto(reg: Seq<u8>, mem: Seq<u8>, i: u16, k: int) -> Seq<u8>
    decreases k,
{
    if k <= 0 {
        reg
    } else {
        load_upto(reg, mem, i, k - 1).update(k - 1, mem[mem_clamp(i + k - 1)])
    }
}

/// Clear screen: every cell off, redraw flag set.
pub open spec fn sem_cls(v: CpuV) -> CpuV {
    CpuV { graph: blank_graph(), draw_flag: true, pc: wrap16(v.pc + 2), ..v }
}

/// Return from subroutine: pop the most recent return address into PC, or
/// fail with `StackUnderflow` on an empty stack.
pub open spec fn sem_ret(v: CpuV) -> Result<CpuV, ErrorKind> {
    if v.sp == 0 {
        Err(ErrorKind::StackUnderflow)
    } else {
        Ok(CpuV { sp: (v.sp - 1) as u16, pc: v.stack[v.sp - 1], ..v })
    }
}

/// Jump: PC := nnn.
pub open spec fn sem_jp(v: CpuV, nnn: u16) -> CpuV {
    CpuV { pc: nnn, ..v }
}

/// Call subroutine: push the address past this instruction, or fail with
/// `StackOverflow` on a full stack; PC := nnn.
pub open spec fn sem_call(v: CpuV, nnn: u16) -> Result<CpuV, ErrorKind> {
    if v.sp >= 16 {
        Err(ErrorKind::StackOverflow)
    } else {
        Ok(
            CpuV {
                stack: v.stack.update(v.sp as int, wrap16(v.pc + 2)),
                sp: (v.sp + 1) as u16,
                pc: nnn,
                ..v
            },
        )
    }
}

/// Skip next instruction when the condition holds: PC advances by 4, else 2.
pub open spec fn sem_skip_if(v: CpuV, cond: bool) -> CpuV {
    CpuV { pc: if cond { wrap16(v.pc + 4) } else { wrap16(v.pc + 2) }, ..v }
}

/// Load immediate: Vx := kk.
pub open spec fn sem_ld_imm(v: CpuV, x: u8, kk: u8) -> CpuV {
    CpuV { reg: v.reg.update(x as int, kk), pc: wrap16(v.pc + 2), ..v }
}

/// Add immediate: Vx := Vx + kk wrapping, no flag.
pub open spec fn sem_add_imm(v: CpuV, x: u8, kk: u8) -> CpuV {
    CpuV { reg: v.reg.update(x as int, wrap8(v.reg[x as int] + kk)), pc: wrap16(v.pc + 2), ..v }
}

/// The register file after a register-to-register ALU operation on the old
/// values `a` of Vx and `b` of Vy: for the flagged operations the flag is
/// written to VF first and the result to Vx second, so with x = 0xF the
/// result wins.
pub open spec fn alu_reg(reg: Seq<u8>, op: AluOp, x: u8, a: u8, b: u8) -> Seq<u8> {
    match op {
        AluOp::Ld => reg.update(x as int, b),
        AluOp::Or => reg.update(x as int, a | b),
        AluOp::And => reg.update(x as int, a & b),
        AluOp::Xor => reg.update(x as int, a ^ b),
        AluOp::Add => reg.update(15, if a + b > 255 { 1u8 } else { 0u8 }).update(
            x as int,
            wrap8(a + b),
        ),
        AluOp::Sub => reg.update(15, if a > b { 1u8 } else { 0u8 }).update(x as int, wrap8(a - b)),
        AluOp::Shr => reg.update(15, if a % 2 == 1 { 1u8 } else { 0u8 }).update(
            x as int,
            (a / 2) as u8,
        ),
        AluOp::Subn => reg.update(15, if a < b { 1u8 } else { 0u8 }).update(x as int, wrap8(b - a)),
        AluOp::Shl => reg.update(15, if a >= 128 { 1u8 } else { 0u8 }).update(
            x as int,
            wrap8(2 * a),
        ),
    }
}

/// Register-to-register ALU operation.
pub open spec fn sem_alu(v: CpuV, op: AluOp, x: u8, y: u8) -> CpuV {
    CpuV {
        reg: alu_reg(v.reg, op, x, v.reg[x as int], v.reg[y as int]),
        pc: wrap16(v.pc + 2),
        ..v
    }
}

/// Set index register: I := nnn.
pub open spec fn sem_ld_i(v: CpuV, nnn: u16) -> CpuV {
    CpuV { i: nnn, pc: wrap16(v.pc + 2), ..v }
}

/// Jump with offset: PC := V0 + nnn.
pub open spec fn sem_jp_v0(v: CpuV, nnn: u16) -> CpuV {
    CpuV { pc: wrap16(v.reg[0] + nnn), ..v }
}

/// Random: Vx := the drawn byte masked by kk.
pub open spec fn sem_rnd(v: CpuV, x: u8, kk: u8, rnd: u8) -> CpuV {
    CpuV { reg: v.reg.update(x as int, rnd & kk), pc: wrap16(v.pc + 2), ..v }
}

/// Draw sprite: XOR-blit `n` rows read from memory at I onto the framebuffer
/// at column Vx, row Vy; VF := 1 iff any targeted cell was already on; the
/// redraw flag is set. The coordinates are the register values before the
/// flag write.
pub open spec fn sem_drw(v: CpuV, x: u8, y: u8, n: u8) -> CpuV {
    let res = blit_upto(v.memory, v.graph, false, v.i, v.reg[x as int], v.reg[y as int], n as int);
    CpuV {
        graph: res.0,
        reg: v.reg.update(15, if res.1 { 1u8 } else { 0u8 }),
        draw_flag: true,
        pc: wrap16(v.pc + 2),
        ..v
    }
}

/// Load the delay timer into Vx.
pub open spec fn sem_ld_from_dt(v: CpuV, x: u8) -> CpuV {
    CpuV { reg: v.reg.update(x as int, v.delay_timer), pc: wrap16(v.pc + 2), ..v }
}

/// Block until a key is pressed: with no key down the state is unchanged and
/// the same instruction will be fetched again; otherwise the highest pressed
/// key index goes to Vx and PC advances.
pub open spec fn sem_wait_key(v: CpuV, x: u8) -> CpuV {
    match highest_key(v.key) {
        None => v,
        Some(k) => CpuV { reg: v.reg.update(x as int, k), pc: wrap16(v.pc + 2), ..v },
    }
}

/// Store Vx into the delay timer.
pub open spec fn sem_ld_dt(v: CpuV, x: u8) -> CpuV {
    CpuV { delay_timer: v.reg[x as int], pc: wrap16(v.pc + 2), ..v }
}

/// Store Vx into the sound timer.
pub open spec fn sem_ld_st(v: CpuV, x: u8) -> CpuV {
    CpuV { sound_timer: v.reg[x as int], pc: wrap16(v.pc + 2), ..v }
}

/// Add register to index: I := I + Vx wrapping at 16 bits, VF := 1 iff the
/// unwrapped sum exceeds 0xFFF.
pub open spec fn sem_add_i(v: CpuV, x: u8) -> CpuV {
    CpuV {
        reg: v.reg.update(15, if v.i + v.reg[x as int] > 0xFFF { 1u8 } else { 0u8 }),
        i: wrap16(v.i + v.reg[x as int]),
        pc: wrap16(v.pc + 2),
        ..v
    }
}

/// Font glyph address: I := Vx * 5, the row-start offset within the font
/// table.
pub open spec fn sem_ld_font(v: CpuV, x: u8) -> CpuV {
    CpuV { i: (v.reg[x as int] * 5) as u16, pc: wrap16(v.pc + 2), ..v }
}

/// Store BCD digits: hundreds, tens and ones of Vx at I, I+1, I+2.
pub open spec fn sem_bcd(v: CpuV, x: u8) -> CpuV {
    let t = v.reg[x as int];
    CpuV {
        memory: v.memory.update(mem_clamp(v.i as int), (t / 100) as u8).update(
            mem_clamp(v.i + 1),
            ((t / 10) % 10) as u8,
        ).update(mem_clamp(v.i + 2), (t % 10) as u8),
        pc: wrap16(v.pc + 2),
        ..v
    }
}

/// Block store: registers 0..=x to memory at I; then I := I + x + 1.
pub open spec fn sem_store_regs(v: CpuV, x: u8) -> CpuV {
    CpuV {
        memory: store_upto(v.memory, v.reg, v.i, x as int + 1),
        i: wrap16(v.i + x + 1),
        pc: wrap16(v.pc + 2),
        ..v
    }
}

/// Block load: memory at I to registers 0..=x; then I := I + x + 1.
pub open spec fn sem_load_regs(v: CpuV, x: u8) -> CpuV {
    CpuV {
        reg: load_upto(v.reg, v.memory, v.i, x as int + 1),
        i: wrap16(v.i + x + 1),
        pc: wrap16(v.pc + 2),
        ..v
    }
}

/// The full semantics of one decoded instruction on a well-formed state.
/// `rnd` stands for the byte the randomness source hands the Random
/// operation; every other operation ignores it.
pub open spec fn spec_exec(v: CpuV, ins: Instr, rnd: u8) -> Result<CpuV, ErrorKind> {
    match ins {
        Instr::Cls => Ok(sem_cls(v)),
        Instr::Ret => sem_ret(v),
        Instr::Jp { nnn } => Ok(sem_jp(v, nnn)),
        Instr::Call { nnn } => sem_call(v, nnn),
        Instr::SeImm { x, kk } => Ok(sem_skip_if(v, v.reg[x as int] == kk)),
        Instr::SneImm { x, kk } => Ok(sem_skip_if(v, v.reg[x as int] != kk)),
        Instr::SeReg { x, y } => Ok(sem_skip_if(v, v.reg[x as int] == v.reg[y as int])),
        Instr::LdImm { x, kk } => Ok(sem_ld_imm(v, x, kk)),
        Instr::AddImm { x, kk } => Ok(sem_add_imm(v, x, kk)),
        Instr::Alu { op, x, y } => Ok(sem_alu(v, op, x, y)),
        Instr::SneReg { x, y } => Ok(sem_skip_if(v, v.reg[x as int] != v.reg[y as int])),
        Instr::LdI { nnn } => Ok(sem_ld_i(v, nnn)),
        Instr::JpV0 { nnn } => Ok(sem_jp_v0(v, nnn)),
        Instr::Rnd { x, kk } => Ok(sem_rnd(v, x, kk, rnd)),
        Instr::Drw { x, y, n } => Ok(sem_drw(v, x, y, n)),
        Instr::Skp { x } => Ok(sem_skip_if(v, v.key[key_idx(v.reg[x as int])] == 1)),
        Instr::Sknp { x } => Ok(sem_skip_if(v, v.key[key_idx(v.reg[x as int])] != 1)),
        Instr::LdFromDt { x } => Ok(sem_ld_from_dt(v, x)),
        Instr::WaitKey { x } => Ok(sem_wait_key(v, x)),
        Instr::LdDt { x } => Ok(sem_ld_dt(v, x)),
        Instr::LdSt { x } => Ok(sem_ld_st(v, x)),
        Instr::AddI { x } => Ok(sem_add_i(v, x)),
        Instr::LdFont { x } => Ok(sem_ld_font(v, x)),
        Instr::Bcd { x } => Ok(sem_bcd(v, x)),
        Instr::StoreRegs { x } => Ok(sem_store_regs(v, x)),
        Instr::LoadRegs { x } => Ok(sem_load_regs(v, x)),
    }
}

/// Whether an instruction word decodes to the Random operation, the one
/// operation whose outcome the randomness source decides.
pub open spec fn is_rnd_word(w: u16) -> bool {
    spec_decode(w) matches Some(Instr::Rnd { .. })
}

/// How `execute` relates the old state, the new state and the result for a
/// given instruction word and random byte: an undecodable word fails with
/// `UnknownOpcode` and changes nothing; a decoded instruction either yields
/// the state `spec_exec` gives, or fails with its error and changes nothing.
pub open spec fn exec_rel(v0: CpuV, v1: CpuV, opcode: u16, r: Result<(), ErrorKind>, rnd: u8) -> bool {
    match spec_decode(opcode) {
        None => r == Err::<(), ErrorKind>(ErrorKind::UnknownOpcode(opcode)) && v1 == v0,
        Some(ins) => match spec_exec(v0, ins, rnd) {
            Ok(v) => r == Ok::<(), ErrorKind>(()) && v1 == v,
            Err(e) => r == Err::<(), ErrorKind>(e) && v1 == v0,
        },
    }
}

/// Relies on rand::random: one uniformly distributed byte from the
/// thread-local generator. Nothing is promised of the value; every caller
/// states what holds whatever byte comes back.
#[verifier::external_body]
fn random_byte() -> u8 {
    rand::random::<u8>()
}

/// Saturate a computed memory address to the 4096-byte memory.
fn mem_clamp_e(a: u32) -> (r: usize)
    ensures
        r == mem_clamp(a as int),
        r < 4096,
{
    if a < 4096 {
        a as usize
    } else {
        4095
    }
}

/// Saturate a sprite row address to the 32 framebuffer rows.
fn row_clamp_e(a: u32) -> (r: usize)
    ensures
        r == row_clamp(a as int),
        r < 32,
{
    if a < 32 {
        a as usize
    } else {
        31
    }
}

/// Saturate a sprite column address to the 64 framebuffer columns.
fn col_clamp_e(a: u32) -> (r: usize)
    ensures
        r == col_clamp(a as int),
        r < 64,
{
    if a < 64 {
        a as usize
    } else {
        63
    }
}

/// The draw operation: XOR-blit the sprite and write the collision flag, the
/// redraw flag and the program counter.
fn draw_sprite(cpu: &mut Cpu, x: u8, y: u8, n: u8)
    requires
        old(cpu).wf(),
        x < 16,
        y < 16,
        n < 16,
    ensures
        final(cpu).wf(),
        final(cpu)@ == sem_drw(old(cpu)@, x, y, n),
{
    let ghost v0 = cpu@;
    let vx = cpu.reg[x as usize];
    let vy = cpu.reg[y as usize];
    let mut hit: bool = false;
    let mut r: u8 = 0;
    while r < n
        invariant
            v0.wf(),
            cpu.wf(),
            x < 16,
            y < 16,
            n < 16,
            r <= n,
            vx == v0.reg[x as int],
            vy == v0.reg[y as int],
            cpu@ == (CpuV { graph: cpu@.graph, ..v0 }),
            (cpu@.graph, hit) == blit_upto(v0.memory, v0.graph, false, v0.i, vx, vy, r as int),
        decreases n - r,
    {
        let ghost prev = blit_upto(v0.memory, v0.graph, false, v0.i, vx, vy, r as int);
        let addr = mem_clamp_e((cpu.i as u32) + (r as u32));
        let byte = cpu.memory[addr];
        let rowc = row_clamp_e((vy as u32) + (r as u32));
        let mut b: u8 = 0;
        while b < 8
            invariant
                v0.wf(),
                cpu.wf(),
                b <= 8,
                rowc == row_clamp(vy + r),
                byte == v0.memory[mem_clamp(v0.i + r)],
                vx == v0.reg[x as int],
                cpu@ == (CpuV { graph: cpu@.graph, ..v0 }),
                (cpu@.graph, hit) == blit_row_upto(prev.0, prev.1, byte, vx, rowc as int, b as int),
            decreases 8 - b,
        {
            if (byte & (0x80u8 >> b)) > 0 {
                let colc = col_clamp_e((vx as u32) + (b as u32));
                let ghost g_before = cpu@.graph;
                proof {
                    assert(cpu.graph.deep_view().len() == cpu.graph@.len());
                    assert(cpu.graph.deep_view()[rowc as int] =~= cpu.graph@[rowc as int]@);
                }
                let cur = cpu.graph[rowc][colc];
                proof {
                    assert(cpu.graph@[rowc as int]@ =~= g_before[rowc as int]);
                    assert(cur == g_before[rowc as int][colc as int]);
                }
                if cur {
                    hit = true;
                }
                cpu.graph[rowc][colc] = !cur;
                proof {
                    assert(cpu@.graph =~~= g_before.update(
                        rowc as int,
                        g_before[rowc as int].update(colc as int, !cur),
                    ));
                    assert((cpu@.graph, hit) == blit_row_upto(
                        prev.0,
                        prev.1,
                        byte,
                        vx,
                        rowc as int,
                        b + 1,
                    ));
                    assert(cpu@ =~~= (CpuV { graph: cpu@.graph, ..v0 }));
                }
            }
            b = b + 1;
        }
        r = r + 1;
        proof {
            assert((cpu@.graph, hit) == blit_upto(v0.memory, v0.graph, false, v0.i, vx, vy, r as int));
        }
    }
    let flag: u8 = if hit {
        1
    } else {
        0
    };
    cpu.reg[15] = flag;
    cpu.draw_flag = true;
    cpu.pc = wrapping_add16(cpu.pc, 2);
    proof {
        assert(cpu@ =~~= sem_drw(v0, x, y, n));
    }
}

/// The block-store operation: registers 0..=x to memory at I, then the index
/// register and program counter updates.
fn store_block(cpu: &mut Cpu, x: u8)
    requires
        old(cpu).wf(),
        x < 16,
    ensures
        final(cpu).wf(),
        final(cpu)@ == sem_store_regs(old(cpu)@, x),
{
    let ghost v0 = cpu@;
    let mut j: u8 = 0;
    while j <= x
        invariant
            v0.wf(),
            cpu.wf(),
            x < 16,
            j <= x + 1,
            cpu@ == (CpuV { memory: cpu@.memory, ..v0 }),
            cpu@.memory == store_upto(v0.memory, v0.reg, v0.i, j as int),
        decreases x + 1 - j,
    {
        let addr = mem_clamp_e((cpu.i as u32) + (j as u32));
        let val = cpu.reg[j as usize];
        cpu.memory[addr] = val;
        j = j + 1;
        proof {
            assert(cpu@ =~~= (CpuV { memory: cpu@.memory, ..v0 }));
        }
    }
    cpu.i = wrapping_add16(cpu.i, (x as u16) + 1);
    cpu.pc = wrapping_add16(cpu.pc, 2);
    proof {
        assert(cpu@ =~~= sem_store_regs(v0, x));
    }
}

/// The block-load operation: memory at I to registers 0..=x, then the index
/// register and program counter updates.
fn load_block(cpu: &mut Cpu, x: u8)
    requires
        old(cpu).wf(),
        x < 16,
    ensures
        final(cpu).wf(),
        final(cpu)@ == sem_load_regs(old(cpu)@, x),
{
    let ghost v0 = cpu@;
    let mut j: u8 = 0;
    while j <= x
        invariant
            v0.wf(),
            cpu.wf(),
            x < 16,
            j <= x + 1,
            cpu@ == (CpuV { reg: cpu@.reg, ..v0 }),
            cpu@.reg == load_upto(v0.reg, v0.memory, v0.i, j as int),
        decreases x + 1 - j,
    {
        let addr = mem_clamp_e((cpu.i as u32) + (j as u32));
        let val = cpu.memory[addr];
        cpu.reg[j as usize] = val;
        j = j + 1;
        proof {
            assert(cpu@ =~~= (CpuV { reg: cpu@.reg, ..v0 }));
        }
    }
    cpu.i = wrapping_add16(cpu.i, (x as u16) + 1);
    cpu.pc = wrapping_add16(cpu.pc, 2);
    proof {
        assert(cpu@ =~~= sem_load_regs(v0, x));
    }
}

/// The key-wait operation: scan the latch in ascending order so that the
/// highest pressed key wins; with no key down the state is left unchanged.
fn wait_key_scan(cpu: &mut Cpu, x: u8)
    requires
        old(cpu).wf(),
        x < 16,
    ensures
        final(cpu).wf(),
        final(cpu)@ == sem_wait_key(old(cpu)@, x),
{
    let ghost v0 = cpu@;
    let mut found: bool = false;
    let mut idx: u8 = 0;
    let mut k: u8 = 0;
    while k < 16
        invariant
            v0.wf(),
            cpu.wf(),
            k <= 16,
            cpu@ == v0,
            highest_key_upto(v0.key, k as int) == if found {
                Some(idx)
            } else {
                None::<u8>
            },
        decreases 16 - k,
    {
        if cpu.key[k as usize] != 0 {
            found = true;
            idx = k;
        }
        k = k + 1;
    }
    if found {
        cpu.reg[x as usize] = idx;
        cpu.pc = wrapping_add16(cpu.pc, 2);
        proof {
            assert(cpu@ =~~= sem_wait_key(v0, x));
        }
    } else {
        proof {
            assert(cpu@ =~~= sem_wait_key(v0, x));
        }
    }
}

/// Execute one decoded instruction word against the machine state. The
/// relation to the semantics is stated through `exec_rel`: for every
/// operation but Random the witness byte 0 serves, and for Random some byte
/// does.
pub fn execute(opcode: u16, cpu: &mut Cpu) -> (r: Result<(), ErrorKind>)
    requires
        old(cpu).wf(),
    ensures
        final(cpu).wf(),
        exists|rnd: u8| #[trigger] exec_rel(old(cpu)@, final(cpu)@, opcode, r, rnd),
        !is_rnd_word(opcode) ==> exec_rel(old(cpu)@, final(cpu)@, opcode, r, 0),
{
    let ghost v0 = cpu@;
    let ins_opt = crate::isa::decode(opcode);
    let ins = match ins_opt {
        None => {
            proof {
                assert(exec_rel(v0, cpu@, opcode, Err(ErrorKind::UnknownOpcode(opcode)), 0));
            }
            return Err(ErrorKind::UnknownOpcode(opcode));
        },
        Some(i) => i,
    };
    proof {
        crate::isa::lemma_decode_wf(opcode);
    }
    match ins {
        Instr::Cls => {
            cpu.clear_screen();
            cpu.draw_flag = true;
            cpu.pc = wrapping_add16(cpu.pc, 2);
            proof {
                assert(cpu@ =~~= sem_cls(v0));
                assert(exec_rel(v0, cpu@, opcode, Ok(()), 0));
            }
            Ok(())
        },
        Instr::Ret => {
            if cpu.sp == 0 {
                proof {
                    assert(exec_rel(v0, cpu@, opcode, Err(ErrorKind::StackUnderflow), 0));
                }
                Err(ErrorKind::StackUnderflow)
            } else {
                cpu.sp = cpu.sp - 1;
                cpu.pc = cpu.stack[cpu.sp as usize];
                proof {
                    assert(Ok::<CpuV, ErrorKind>(cpu@) =~~= sem_ret(v0));
                    assert(exec_rel(v0, cpu@, opcode, Ok(()), 0));
                }
                Ok(())
            }
        },
        Instr::Jp { nnn } => {
            cpu.pc = nnn;
            proof {
                assert(cpu@ =~~= sem_jp(v0, nnn));
                assert(exec_rel(v0, cpu@, opcode, Ok(()), 0));
            }
            Ok(())
        },
        Instr::Call { nnn } => {
            if cpu.sp >= 16 {
                proof {
                    assert(exec_rel(v0, cpu@, opcode, Err(ErrorKind::StackOverflow), 0));
                }
                Err(ErrorKind::StackOverflow)
            } else {
                let ret = wrapping_add16(cpu.pc, 2);
                cpu.stack[cpu.sp as usize] = ret;
                cpu.sp = cpu.sp + 1;
                cpu.pc = nnn;
                proof {
                    assert(Ok::<CpuV, ErrorKind>(cpu@) =~~= sem_call(v0, nnn));
                    assert(exec_rel(v0, cpu@, opcode, Ok(()), 0));
                }
                Ok(())
            }
        },
        Instr::SeImm { x, kk } => {
            let cond = cpu.reg[x as usize] == kk;
            cpu.pc = wrapping_add16(cpu.pc, if cond { 4 } else { 2 });
            proof {
                assert(cpu@ =~~= sem_skip_if(v0, v0.reg[x as int] == kk));
                assert(exec_rel(v0, cpu@, opcode, Ok(()), 0));
            }
            Ok(())
        },
        Instr::SneImm { x, kk } => {
            let cond = cpu.reg[x as usize] != kk;
            cpu.pc = wrapping_add16(cpu.pc, if cond { 4 } else { 2 });
            proof {
                assert(cpu@ =~~= sem_skip_if(v0, v0.reg[x as int] != kk));
                assert(exec_rel(v0, cpu@, opcode, Ok(()), 0));
            }
            Ok(())
        },
        Instr::SeReg { x, y } => {
            let cond = cpu.reg[x as usize] == cpu.reg[y as usize];
            cpu.pc = wrapping_add16(cpu.pc, if cond { 4 } else { 2 });
            proof {
                assert(cpu@ =~~= sem_skip_if(v0, v0.reg[x as int] == v0.reg[y as int]));
                assert(exec_rel(v0, cpu@, opcode, Ok(()), 0));
            }
            Ok(())
        },
        Instr::LdImm { x, kk } => {
            cpu.reg[x as usize] = kk;
            cpu.pc = wrapping_add16(cpu.pc, 2);
            proof {
                assert(cpu@ =~~= sem_ld_imm(v0, x, kk));
                assert(exec_rel(v0, cpu@, opcode, Ok(()), 0));
            }
            Ok(())
        },
        Instr::AddImm { x, kk } => {
            let val = wrapping_add8(cpu.reg[x as usize], kk);
            cpu.reg[x as usize] = val;
            cpu.pc = wrapping_add16(cpu.pc, 2);
            proof {
                assert(cpu@ =~~= sem_add_imm(v0, x, kk));
                assert(exec_rel(v0, cpu@, opcode, Ok(()), 0));
            }
            Ok(())
        },
        Instr::Alu { op, x, y } => {
            let a = cpu.reg[x as usize];
            let b = cpu.reg[y as usize];
            match op {
                AluOp::Ld => {
                    cpu.reg[x as usize] = b;
                },
                AluOp::Or => {
                    cpu.reg[x as usize] = a | b;
                },
                AluOp::And => {
                    cpu.reg[x as usize] = a & b;
                },
                AluOp::Xor => {
                    cpu.reg[x as usize] = a ^ b;
                },
                AluOp::Add => {
                    let flag: u8 = if (a as u16) + (b as u16) > 255 {
                        1
                    } else {
                        0
                    };
                    let val = wrapping_add8(a, b);
                    cpu.reg[15] = flag;
                    cpu.reg[x as usize] = val;
                },
                AluOp::Sub => {
                    let flag: u8 = if a > b {
                        1
                    } else {
                        0
                    };
                    let val = wrapping_sub8(a, b);
                    cpu.reg[15] = flag;
                    cpu.reg[x as usize] = val;
                },
                AluOp::Shr => {
                    let flag: u8 = if a % 2 == 1 {
                        1
                    } else {
                        0
                    };
                    let val = a / 2;
                    cpu.reg[15] = flag;
                    cpu.reg[x as usize] = val;
                },
                AluOp::Subn => {
                    let flag: u8 = if a < b {
                        1
                    } else {
                        0
                    };
                    let val = wrapping_sub8(b, a);
                    cpu.reg[15] = flag;
                    cpu.reg[x as usize] = val;
                },
                AluOp::Shl => {
                    let flag: u8 = if a >= 128 {
                        1
                    } else {
                        0
                    };
                    let val = (((a as u16) * 2) % 256) as u8;
                    cpu.reg[15] = flag;
                    cpu.reg[x as usize] = val;
                },
            }
            cpu.pc = wrapping_add16(cpu.pc, 2);
            proof {
                assert(cpu@ =~~= sem_alu(v0, op, x, y));
                assert(exec_rel(v0, cpu@, opcode, Ok(()), 0));
            }
            Ok(())
        },
        Instr::SneReg { x, y } => {
            let cond = cpu.reg[x as usize] != cpu.reg[y as usize];
            cpu.pc = wrapping_add16(cpu.pc, if cond { 4 } else { 2 });
            proof {
                assert(cpu@ =~~= sem_skip_if(v0, v0.reg[x as int] != v0.reg[y as int]));
                assert(exec_rel(v0, cpu@, opcode, Ok(()), 0));
            }
            Ok(())
        },
        Instr::LdI { nnn } => {
            cpu.i = nnn;
            cpu.pc = wrapping_add16(cpu.pc, 2);
            proof {
                assert(cpu@ =~~= sem_ld_i(v0, nnn));
                assert(exec_rel(v0, cpu@, opcode, Ok(()), 0));
            }
            Ok(())
        },
        Instr::JpV0 { nnn } => {
            cpu.pc = wrapping_add16(cpu.reg[0] as u16, nnn);
            proof {
                assert(cpu@ =~~= sem_jp_v0(v0, nnn));
                assert(exec_rel(v0, cpu@, opcode, Ok(()), 0));
            }
            Ok(())
        },
        Instr::Rnd { x, kk } => {
            let rb = random_byte();
            cpu.reg[x as usize] = rb & kk;
            cpu.pc = wrapping_add16(cpu.pc, 2);
            proof {
                assert(cpu@ =~~= sem_rnd(v0, x, kk, rb));
                assert(exec_rel(v0, cpu@, opcode, Ok(()), rb));
            }
            Ok(())
        },
        Instr::Drw { x, y, n } => {
            draw_sprite(cpu, x, y, n);
            proof {
                assert(exec_rel(v0, cpu@, opcode, Ok(()), 0));
            }
            Ok(())
        },
        Instr::Skp { x } => {
            let vx = cpu.reg[x as usize];
            let ki: usize = if vx < 16 {
                vx as usize
            } else {
                15
            };
            let cond = cpu.key[ki] == 1;
            cpu.pc = wrapping_add16(cpu.pc, if cond { 4 } else { 2 });
            proof {
                assert(cpu@ =~~= sem_skip_if(v0, v0.key[key_idx(v0.reg[x as int])] == 1));
                assert(exec_rel(v0, cpu@, opcode, Ok(()), 0));
            }
            Ok(())
        },
        Instr::Sknp { x } => {
            let vx = cpu.reg[x as usize];
            let ki: usize = if vx < 16 {
                vx as usize
            } else {
                15
            };
            let cond = cpu.key[ki] != 1;
            cpu.pc = wrapping_add16(cpu.pc, if cond { 4 } else { 2 });
            proof {
                assert(cpu@ =~~= sem_skip_if(v0, v0.key[key_idx(v0.reg[x as int])] != 1));
                assert(exec_rel(v0, cpu@, opcode, Ok(()), 0));
            }
            Ok(())
        },
        Instr::LdFromDt { x } => {
            cpu.reg[x as usize] = cpu.delay_timer;
            cpu.pc = wrapping_add16(cpu.pc, 2);
            proof {
                assert(cpu@ =~~= sem_ld_from_dt(v0, x));
                assert(exec_rel(v0, cpu@, opcode, Ok(()), 0));
            }
            Ok(())
        },
        Instr::WaitKey { x } => {
            wait_key_scan(cpu, x);
            proof {
                assert(exec_rel(v0, cpu@, opcode, Ok(()), 0));
            }
            Ok(())
        },
        Instr::LdDt { x } => {
            cpu.delay_timer = cpu.reg[x as usize];
            cpu.pc = wrapping_add16(cpu.pc, 2);
            proof {
                assert(cpu@ =~~= sem_ld_dt(v0, x));
                assert(exec_rel(v0, cpu@, opcode, Ok(()), 0));
            }
            Ok(())
        },
        Instr::LdSt { x } => {
            cpu.sound_timer = cpu.reg[x as usize];
            cpu.pc = wrapping_add16(cpu.pc, 2);
            proof {
                assert(cpu@ =~~= sem_ld_st(v0, x));
                assert(exec_rel(v0, cpu@, opcode, Ok(()), 0));
            }
            Ok(())
        },
        Instr::AddI { x } => {
            let vx = cpu.reg[x as usize];
            let flag: u8 = if (cpu.i as u32) + (vx as u32) > 0xFFF {
                1
            } else {
                0
            };
            cpu.reg[15] = flag;
            cpu.i = wrapping_add16(cpu.i, vx as u16);
            cpu.pc = wrapping_add16(cpu.pc, 2);
            proof {
                assert(cpu@ =~~= sem_add_i(v0, x));
                assert(exec_rel(v0, cpu@, opcode, Ok(()), 0));
            }
            Ok(())
        },
        Instr::LdFont { x } => {
            cpu.i = (cpu.reg[x as usize] as u16) * 5;
            cpu.pc = wrapping_add16(cpu.pc, 2);
            proof {
                assert(cpu@ =~~= sem_ld_font(v0, x));
                assert(exec_rel(v0, cpu@, opcode, Ok(()), 0));
            }
            Ok(())
        },
        Instr::Bcd { x } => {
            let t = cpu.reg[x as usize];
            let a0 = mem_clamp_e(cpu.i as u32);
            cpu.memory[a0] = t / 100;
            let a1 = mem_clamp_e((cpu.i as u32) + 1);
            cpu.memory[a1] = (t / 10) % 10;
            let a2 = mem_clamp_e((cpu.i as u32) + 2);
            cpu.memory[a2] = t % 10;
            cpu.pc = wrapping_add16(cpu.pc, 2);
            proof {
                assert(cpu@ =~~= sem_bcd(v0, x));
                assert(exec_rel(v0, cpu@, opcode, Ok(()), 0));
            }
            Ok(())
        },
        Instr::StoreRegs { x } => {
            store_block(cpu, x);
            proof {
                assert(exec_rel(v0, cpu@, opcode, Ok(()), 0));
            }
            Ok(())
        },
        Instr::LoadRegs { x } => {
            load_block(cpu, x);
            proof {
                assert(exec_rel(v0, cpu@, opcode, Ok(()), 0));
            }
            Ok(())
        },
    }
}

} // verus!
