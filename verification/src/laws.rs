//! Laws of the machine, proved once and for all: the carry, borrow and
//! shifted-out-bit flags of the ALU, the call/return round trip, the stack
//! bounds, the font table, binary-coded-decimal storage, the key-wait scan
//! and the timer decrement.

use vstd::prelude::*;

use crate::alu::{
    blit_row_upto, blit_upto, col_clamp, highest_key_upto, mem_clamp, row_clamp, sem_alu,
    sem_bcd, sem_call, sem_drw, sem_ld_font, sem_ret, sem_wait_key, spec_exec, sprite_pixel,
};
use crate::cpu::{decr, font, spec_fetch, spec_init, spec_tick, CpuV};
use crate::isa::{spec_decode, AluOp, ErrorKind, Instr};
use crate::{wrap8, wrap16};

verus! {

/// ADD Vx, Vy: the flag is 1 exactly when the unwrapped sum of the old
/// values exceeds 255, and Vx becomes the sum modulo 256. With x = 0xF the
/// result write would overwrite the flag, so that selector is left out.
pub proof fn lemma_add_flag(v: CpuV, x: u8, y: u8)
    requires
        v.wf(),
        x < 15,
        y < 16,
    ensures
        ({
            let a = v.reg[x as int];
            let b = v.reg[y as int];
            let v1 = sem_alu(v, AluOp::Add, x, y);
            &&& v1.reg[15] == if a + b > 255 { 1u8 } else { 0u8 }
            &&& v1.reg[x as int] == wrap8(a + b)
        }),
{
}

/// SUB Vx, Vy: the flag is 1 exactly when the old Vx exceeds the old Vy (no
/// borrow), and Vx becomes the difference modulo 256.
pub proof fn lemma_sub_flag(v: CpuV, x: u8, y: u8)
    requires
        v.wf(),
        x < 15,
        y < 16,
    ensures
        ({
            let a = v.reg[x as int];
            let b = v.reg[y as int];
            let v1 = sem_alu(v, AluOp::Sub, x, y);
            &&& v1.reg[15] == if a > b { 1u8 } else { 0u8 }
            &&& v1.reg[x as int] == wrap8(a - b)
        }),
{
}

/// SHR Vx: the flag receives exactly the least-significant bit of the old
/// value, extracted before the shift, and Vx becomes the old value shifted
/// right once.
pub proof fn lemma_shr_flag(v: CpuV, x: u8, y: u8)
    requires
        v.wf(),
        x < 15,
        y < 16,
    ensures
        ({
            let a = v.reg[x as int];
            let v1 = sem_alu(v, AluOp::Shr, x, y);
            &&& v1.reg[15] == a & 1
            &&& v1.reg[x as int] == a >> 1u8
        }),
{
    let a = v.reg[x as int];
    assert(a & 1 == (if a % 2 == 1 { 1u8 } else { 0u8 })) by (bit_vector);
    assert(a >> 1u8 == (a / 2) as u8) by (bit_vector);
}

/// SHL Vx: the flag receives exactly the most-significant bit of the old
/// value, extracted before the shift, and Vx becomes the old value shifted
/// left once, truncated to 8 bits.
pub proof fn lemma_shl_flag(v: CpuV, x: u8, y: u8)
    requires
        v.wf(),
        x < 15,
        y < 16,
    ensures
        ({
            let a = v.reg[x as int];
            let v1 = sem_alu(v, AluOp::Shl, x, y);
            &&& v1.reg[15] == a >> 7u8
            &&& v1.reg[x as int] == wrap8(2 * a)
        }),
{
    let a = v.reg[x as int];
    assert(a >> 7u8 == (if a >= 128 { 1u8 } else { 0u8 })) by (bit_vector);
}

/// Call then return: executing a CALL step and then a RET step at the called
/// address brings the program counter to just past the CALL, the state a
/// plain fall-through would have reached.
pub proof fn lemma_call_ret_round_trip(v: CpuV, w1: u16, nnn: u16)
    requires
        v.wf(),
        v.sp < 16,
        spec_fetch(v) == Some(w1),
        spec_decode(w1) == Some(Instr::Call { nnn }),
        nnn + 1 < 4096,
        (v.memory[nnn as int] as int) * 256 + (v.memory[nnn as int + 1] as int) == 0x00EE,
    ensures
        spec_tick(v, 0) is Ok,
        spec_tick(spec_tick(v, 0)->Ok_0, 0) is Ok,
        spec_tick(spec_tick(v, 0)->Ok_0, 0)->Ok_0.pc == v.pc + 2,
        spec_tick(spec_tick(v, 0)->Ok_0, 0)->Ok_0.sp == v.sp,
{
    let v1 = spec_tick(v, 0)->Ok_0;
    assert(v.pc + 1 < 4096);
    assert(v1.pc == nnn);
    assert(v1.sp == v.sp + 1);
    assert(v1.stack[v.sp as int] == wrap16(v.pc + 2));
    assert(v1.memory == v.memory);
    assert(spec_fetch(v1) == Some(0x00EEu16));
    assert(spec_decode(0x00EE) == Some(Instr::Ret));
    let v2 = spec_tick(v1, 0)->Ok_0;
    assert(v2.pc == wrap16(v.pc + 2));
    assert(v.pc + 2 < 0x10000);
}

/// A call with room on the stack succeeds: the stack pointer grows by one
/// and the pushed entry is the address past the call.
pub proof fn lemma_call_pushes(v: CpuV, nnn: u16)
    requires
        v.wf(),
        v.sp < 16,
    ensures
        sem_call(v, nnn) is Ok,
        sem_call(v, nnn)->Ok_0.sp == v.sp + 1,
        sem_call(v, nnn)->Ok_0.stack[v.sp as int] == wrap16(v.pc + 2),
        sem_call(v, nnn)->Ok_0.pc == nnn,
{
}

/// A call with all 16 stack entries occupied fails with `StackOverflow`.
pub proof fn lemma_call_overflow(v: CpuV, nnn: u16)
    requires
        v.wf(),
        v.sp == 16,
    ensures
        sem_call(v, nnn) == Err::<CpuV, ErrorKind>(ErrorKind::StackOverflow),
{
}

/// A return with an empty stack fails with `StackUnderflow`.
pub proof fn lemma_ret_underflow(v: CpuV)
    requires
        v.wf(),
        v.sp == 0,
    ensures
        sem_ret(v) == Err::<CpuV, ErrorKind>(ErrorKind::StackUnderflow),
{
}

/// Font glyph address: with Vx = 10 the index register receives 50, and the
/// freshly constructed machine holds the five rows of the "A" glyph there.
pub proof fn lemma_font_glyph_a(v: CpuV, x: u8)
    requires
        v.wf(),
        x < 16,
        v.reg[x as int] == 10,
    ensures
        sem_ld_font(v, x).i == 50,
        spec_init().memory[50] == 0xF0,
        spec_init().memory[51] == 0x90,
        spec_init().memory[52] == 0xF0,
        spec_init().memory[53] == 0x90,
        spec_init().memory[54] == 0x90,
{
    assert(font()[50] == 0xF0);
    assert(font()[51] == 0x90);
    assert(font()[52] == 0xF0);
    assert(font()[53] == 0x90);
    assert(font()[54] == 0x90);
}

/// BCD store: with the index register clear of the memory edge, the bytes at
/// I, I+1 and I+2 receive the hundreds, tens and ones digits of Vx.
pub proof fn lemma_bcd_digits(v: CpuV, x: u8)
    requires
        v.wf(),
        x < 16,
        v.i + 2 < 4096,
    ensures
        ({
            let t = v.reg[x as int];
            let m = sem_bcd(v, x).memory;
            &&& m[v.i as int] == t / 100
            &&& m[v.i as int + 1] == (t / 10) % 10
            &&& m[v.i as int + 2] == t % 10
        }),
{
}

/// A latch with no key pressed up to `n` scans to no match.
proof fn lemma_no_key_upto(key: Seq<u8>, n: int)
    requires
        0 <= n <= key.len(),
        forall|k: int| 0 <= k < n ==> key[k] == 0,
    ensures
        highest_key_upto(key, n) is None,
    decreases n,
{
    if n > 0 {
        lemma_no_key_upto(key, n - 1);
    }
}

/// A latch whose highest pressed key is `k` scans to `k`.
proof fn lemma_highest_key_upto(key: Seq<u8>, k: u8, n: int)
    requires
        0 <= k < n <= key.len(),
        key[k as int] != 0,
        forall|j: int| k < j < n ==> key[j] == 0,
    ensures
        highest_key_upto(key, n) == Some(k),
    decreases n,
{
    if n - 1 > k {
        lemma_highest_key_upto(key, k, n - 1);
    }
}

/// Key-wait with no key pressed: the state, the program counter included, is
/// unchanged, so the same instruction is fetched again next step.
pub proof fn lemma_wait_key_none(v: CpuV, x: u8)
    requires
        v.wf(),
        x < 16,
        forall|k: int| 0 <= k < 16 ==> v.key[k] == 0,
    ensures
        sem_wait_key(v, x) == v,
{
    lemma_no_key_upto(v.key, 16);
}

/// Key-wait with keys pressed: the highest pressed index wins, goes to Vx,
/// and the program counter advances past the instruction.
pub proof fn lemma_wait_key_highest(v: CpuV, x: u8, k: u8)
    requires
        v.wf(),
        x < 16,
        k < 16,
        v.key[k as int] != 0,
        forall|j: int| k < j < 16 ==> v.key[j] == 0,
    ensures
        sem_wait_key(v, x) == (CpuV { reg: v.reg.update(x as int, k), pc: wrap16(v.pc + 2), ..v }),
{
    lemma_highest_key_upto(v.key, k, 16);
}

/// Timer decrement: every successful step whose instruction is not a timer
/// write leaves each timer decremented by one, floored at zero.
pub proof fn lemma_tick_timers(v: CpuV, rnd: u8, w: u16, ins: Instr)
    requires
        v.wf(),
        spec_fetch(v) == Some(w),
        spec_decode(w) == Some(ins),
        !(ins matches Instr::LdDt { .. }),
        !(ins matches Instr::LdSt { .. }),
        spec_exec(v, ins, rnd) is Ok,
    ensures
        spec_tick(v, rnd) is Ok,
        spec_tick(v, rnd)->Ok_0.delay_timer == decr(v.delay_timer),
        spec_tick(v, rnd)->Ok_0.sound_timer == decr(v.sound_timer),
{
    let v2 = spec_exec(v, ins, rnd)->Ok_0;
    assert(v2.delay_timer == v.delay_timer && v2.sound_timer == v.sound_timer) by {
        match ins {
            Instr::Cls => {},
            Instr::Ret => {},
            Instr::Jp { nnn } => {},
            Instr::Call { nnn } => {},
            Instr::SeImm { x, kk } => {},
            Instr::SneImm { x, kk } => {},
            Instr::SeReg { x, y } => {},
            Instr::LdImm { x, kk } => {},
            Instr::AddImm { x, kk } => {},
            Instr::Alu { op, x, y } => {},
            Instr::SneReg { x, y } => {},
            Instr::LdI { nnn } => {},
            Instr::JpV0 { nnn } => {},
            Instr::Rnd { x, kk } => {},
            Instr::Drw { x, y, n } => {},
            Instr::Skp { x } => {},
            Instr::Sknp { x } => {},
            Instr::LdFromDt { x } => {},
            Instr::WaitKey { x } => {},
            Instr::LdDt { x } => {},
            Instr::LdSt { x } => {},
            Instr::AddI { x } => {},
            Instr::LdFont { x } => {},
            Instr::Bcd { x } => {},
            Instr::StoreRegs { x } => {},
            Instr::LoadRegs { x } => {},
        }
    }
}

/// Every bit of an all-ones sprite row is a set pixel.
proof fn lemma_pixel_ff()
    by (bit_vector)
    ensures
        forall|b: u8| b < 8 ==> #[trigger] sprite_pixel(0xFFu8, b),
{
}

/// Pointwise effect of blitting one sprite row that fits the framebuffer
/// without clamping: only the bits of `byte` within the first `nb` columns
/// starting at `vx` toggle cells of row `row`, every other cell is
/// untouched, and the collision flag accumulates exactly the toggled cells
/// that were already on.
proof fn lemma_blit_row_pointwise(
    g: Seq<Seq<bool>>,
    hit: bool,
    byte: u8,
    vx: u8,
    row: int,
    nb: int,
)
    requires
        g.len() == 32,
        forall|r: int| 0 <= r < 32 ==> (#[trigger] g[r]).len() == 64,
        0 <= row < 32,
        0 <= nb <= 8,
        vx + 8 <= 64,
    ensures
        ({
            let res = blit_row_upto(g, hit, byte, vx, row, nb);
            &&& res.0.len() == 32
            &&& forall|r: int| 0 <= r < 32 ==> (#[trigger] res.0[r]).len() == 64
            &&& forall|r: int| 0 <= r < 32 && r != row ==> res.0[r] == g[r]
            &&& forall|c: int|
                0 <= c < 64 ==> #[trigger] res.0[row][c] == (if vx <= c < vx + nb
                    && sprite_pixel(byte, (c - vx) as u8) {
                    !g[row][c]
                } else {
                    g[row][c]
                })
            &&& res.1 == (hit || exists|c: int|
                vx <= c < vx + nb && #[trigger] sprite_pixel(byte, (c - vx) as u8) && g[row][c])
        }),
    decreases nb,
{
    if nb > 0 {
        lemma_blit_row_pointwise(g, hit, byte, vx, row, nb - 1);
        let prev = blit_row_upto(g, hit, byte, vx, row, nb - 1);
        let res = blit_row_upto(g, hit, byte, vx, row, nb);
        let b = nb - 1;
        let col = vx + b;
        assert(col_clamp(col) == col);
        let hit_prev = (exists|c: int|
            vx <= c < vx + nb - 1 && #[trigger] sprite_pixel(byte, (c - vx) as u8) && g[row][c]);
        let hit_now = (exists|c: int|
            vx <= c < vx + nb && #[trigger] sprite_pixel(byte, (c - vx) as u8) && g[row][c]);
        if sprite_pixel(byte, b as u8) {
            assert(prev.0[row][col] == g[row][col]);
            assert(forall|c: int|
                0 <= c < 64 ==> #[trigger] res.0[row][c] == (if vx <= c < vx + nb
                    && sprite_pixel(byte, (c - vx) as u8) {
                    !g[row][c]
                } else {
                    g[row][c]
                }));
            if hit_prev {
                let c0 = choose|c: int|
                    vx <= c < vx + nb - 1 && #[trigger] sprite_pixel(byte, (c - vx) as u8)
                        && g[row][c];
                assert(vx <= c0 < vx + nb && sprite_pixel(byte, (c0 - vx) as u8) && g[row][c0]);
                assert(hit_now);
            }
            if g[row][col] {
                assert(vx <= col < vx + nb && sprite_pixel(byte, (col - vx) as u8) && g[row][col]);
                assert(hit_now);
            }
            if hit_now {
                let c0 = choose|c: int|
                    vx <= c < vx + nb && #[trigger] sprite_pixel(byte, (c - vx) as u8) && g[row][c];
                if c0 == col {
                    assert(g[row][col]);
                } else {
                    assert(vx <= c0 < vx + nb - 1 && sprite_pixel(byte, (c0 - vx) as u8)
                        && g[row][c0]);
                    assert(hit_prev);
                }
            }
            assert(res.1 == (hit || hit_now));
        } else {
            if hit_now {
                let c0 = choose|c: int|
                    vx <= c < vx + nb && #[trigger] sprite_pixel(byte, (c - vx) as u8) && g[row][c];
                assert(c0 != col);
                assert(hit_prev);
            }
            if hit_prev {
                let c0 = choose|c: int|
                    vx <= c < vx + nb - 1 && #[trigger] sprite_pixel(byte, (c - vx) as u8)
                        && g[row][c];
                assert(vx <= c0 < vx + nb && sprite_pixel(byte, (c0 - vx) as u8) && g[row][c0]);
                assert(hit_now);
            }
            assert(res.1 == (hit || hit_now));
        }
    }
}

/// Pointwise effect of blitting a whole sprite that fits the framebuffer and
/// memory without clamping: exactly the set sprite bits toggle their cells,
/// and the collision flag reports exactly whether some set bit met a cell
/// that was already on.
proof fn lemma_blit_pointwise(mem: Seq<u8>, g: Seq<Seq<bool>>, i: u16, vx: u8, vy: u8, nr: int)
    requires
        mem.len() == 4096,
        g.len() == 32,
        forall|r: int| 0 <= r < 32 ==> (#[trigger] g[r]).len() == 64,
        vx + 8 <= 64,
        vy + nr <= 32,
        i + nr <= 4096,
        0 <= nr,
    ensures
        ({
            let res = blit_upto(mem, g, false, i, vx, vy, nr);
            &&& res.0.len() == 32
            &&& forall|r: int| 0 <= r < 32 ==> (#[trigger] res.0[r]).len() == 64
            &&& forall|r: int, c: int|
                #![trigger res.0[r][c]]
                0 <= r < 32 && 0 <= c < 64 ==> res.0[r][c] == (if vy <= r < vy + nr && vx <= c < vx
                    + 8 && sprite_pixel(mem[i + (r - vy)], (c - vx) as u8) {
                    !g[r][c]
                } else {
                    g[r][c]
                })
            &&& res.1 == (exists|r: int, c: int|
                #![trigger sprite_pixel(mem[i + (r - vy)], (c - vx) as u8), g[r][c]]
                vy <= r < vy + nr && vx <= c < vx + 8 && sprite_pixel(
                    mem[i + (r - vy)],
                    (c - vx) as u8,
                ) && g[r][c])
        }),
    decreases nr,
{
    if nr > 0 {
        lemma_blit_pointwise(mem, g, i, vx, vy, nr - 1);
        let prev = blit_upto(mem, g, false, i, vx, vy, nr - 1);
        let res = blit_upto(mem, g, false, i, vx, vy, nr);
        let r1 = nr - 1;
        let row = vy + r1;
        let byte = mem[i + r1];
        assert(mem_clamp(i + r1) == i + r1);
        assert(row_clamp(vy + r1) == row);
        assert(forall|c: int| 0 <= c < 64 ==> #[trigger] prev.0[row][c] == g[row][c]);
        assert(prev.0[row] =~= g[row]);
        lemma_blit_row_pointwise(prev.0, prev.1, byte, vx, row, 8);
        assert forall|r: int, c: int|
            #![trigger res.0[r][c]]
            0 <= r < 32 && 0 <= c < 64 implies res.0[r][c] == (if vy <= r < vy + nr && vx <= c < vx
            + 8 && sprite_pixel(mem[i + (r - vy)], (c - vx) as u8) {
            !g[r][c]
        } else {
            g[r][c]
        }) by {
            if r == row {
                assert(res.0[row][c] == (if vx <= c < vx + 8 && sprite_pixel(byte, (c - vx) as u8) {
                    !prev.0[row][c]
                } else {
                    prev.0[row][c]
                }));
                assert(prev.0[row][c] == g[row][c]);
            } else {
                assert(res.0[r] == prev.0[r]);
                assert(prev.0[r][c] == (if vy <= r < vy + nr - 1 && vx <= c < vx + 8
                    && sprite_pixel(mem[i + (r - vy)], (c - vx) as u8) {
                    !g[r][c]
                } else {
                    g[r][c]
                }));
            }
        };
        let hit_prev = (exists|r: int, c: int|
            #![trigger sprite_pixel(mem[i + (r - vy)], (c - vx) as u8), g[r][c]]
            vy <= r < vy + nr - 1 && vx <= c < vx + 8 && sprite_pixel(
                mem[i + (r - vy)],
                (c - vx) as u8,
            ) && g[r][c]);
        let hit_row = (exists|c: int|
            vx <= c < vx + 8 && #[trigger] sprite_pixel(byte, (c - vx) as u8) && prev.0[row][c]);
        let hit_now = (exists|r: int, c: int|
            #![trigger sprite_pixel(mem[i + (r - vy)], (c - vx) as u8), g[r][c]]
            vy <= r < vy + nr && vx <= c < vx + 8 && sprite_pixel(
                mem[i + (r - vy)],
                (c - vx) as u8,
            ) && g[r][c]);
        assert(res.1 == (prev.1 || hit_row));
        if hit_prev {
            let (r0, c0) = choose|r: int, c: int|
                #![trigger sprite_pixel(mem[i + (r - vy)], (c - vx) as u8), g[r][c]]
                vy <= r < vy + nr - 1 && vx <= c < vx + 8 && sprite_pixel(
                    mem[i + (r - vy)],
                    (c - vx) as u8,
                ) && g[r][c];
            assert(vy <= r0 < vy + nr && vx <= c0 < vx + 8 && sprite_pixel(
                mem[i + (r0 - vy)],
                (c0 - vx) as u8,
            ) && g[r0][c0]);
            assert(hit_now);
        }
        if hit_row {
            let c0 = choose|c: int|
                vx <= c < vx + 8 && #[trigger] sprite_pixel(byte, (c - vx) as u8)
                    && prev.0[row][c];
            assert(g[row][c0]);
            assert(vy <= row < vy + nr && vx <= c0 < vx + 8 && sprite_pixel(
                mem[i + (row - vy)],
                (c0 - vx) as u8,
            ) && g[row][c0]);
            assert(hit_now);
        }
        if hit_now {
            let (r0, c0) = choose|r: int, c: int|
                #![trigger sprite_pixel(mem[i + (r - vy)], (c - vx) as u8), g[r][c]]
                vy <= r < vy + nr && vx <= c < vx + 8 && sprite_pixel(
                    mem[i + (r - vy)],
                    (c - vx) as u8,
                ) && g[r][c];
            if r0 == row {
                assert(prev.0[row][c0] == g[row][c0]);
                assert(sprite_pixel(byte, (c0 - vx) as u8) && prev.0[row][c0]);
                assert(hit_row);
            } else {
                assert(vy <= r0 < vy + nr - 1);
                assert(hit_prev);
            }
        }
        assert(res.1 == hit_now);
    } else {
        let res = blit_upto(mem, g, false, i, vx, vy, nr);
        if res.1 {
            assert(false);
        }
    }
}

/// Draw on an all-off framebuffer: with the sprite wholly inside the
/// framebuffer and memory, every cell addressed by a set sprite bit turns
/// on, every other cell stays off, and the collision flag stays 0; an
/// all-ones sprite thus turns on every targeted cell.
pub proof fn lemma_draw_on_blank(v: CpuV, x: u8, y: u8, n: u8)
    requires
        v.wf(),
        x < 16,
        y < 16,
        n < 16,
        v.reg[x as int] + 8 <= 64,
        v.reg[y as int] + n <= 32,
        v.i + n <= 4096,
        forall|r: int, c: int|
            #![trigger v.graph[r][c]]
            0 <= r < 32 && 0 <= c < 64 ==> v.graph[r][c] == false,
    ensures
        ({
            let vx = v.reg[x as int];
            let vy = v.reg[y as int];
            let v1 = sem_drw(v, x, y, n);
            &&& v1.reg[15] == 0
            &&& forall|r: int, c: int|
                #![trigger v1.graph[r][c]]
                0 <= r < 32 && 0 <= c < 64 ==> v1.graph[r][c] == (vy <= r < vy + n && vx <= c < vx
                    + 8 && sprite_pixel(v.memory[v.i + (r - vy)], (c - vx) as u8))
        }),
{
    let vx = v.reg[x as int];
    let vy = v.reg[y as int];
    lemma_blit_pointwise(v.memory, v.graph, v.i, vx, vy, n as int);
    let res = blit_upto(v.memory, v.graph, false, v.i, vx, vy, n as int);
    if res.1 {
        let (r0, c0) = choose|r: int, c: int|
            #![trigger sprite_pixel(v.memory[v.i + (r - vy)], (c - vx) as u8), v.graph[r][c]]
            vy <= r < vy + n && vx <= c < vx + 8 && sprite_pixel(
                v.memory[v.i + (r - vy)],
                (c - vx) as u8,
            ) && v.graph[r][c];
        assert(false);
    }
}

/// Draw on an all-off framebuffer with an all-ones sprite: every targeted
/// cell turns on and the collision flag stays 0.
pub proof fn lemma_draw_all_ones_on_blank(v: CpuV, x: u8, y: u8, n: u8)
    requires
        v.wf(),
        x < 16,
        y < 16,
        n < 16,
        v.reg[x as int] + 8 <= 64,
        v.reg[y as int] + n <= 32,
        v.i + n <= 4096,
        forall|r: int| 0 <= r < n ==> #[trigger] v.memory[v.i + r] == 0xFF,
        forall|r: int, c: int|
            #![trigger v.graph[r][c]]
            0 <= r < 32 && 0 <= c < 64 ==> v.graph[r][c] == false,
    ensures
        ({
            let vx = v.reg[x as int];
            let vy = v.reg[y as int];
            let v1 = sem_drw(v, x, y, n);
            &&& v1.reg[15] == 0
            &&& forall|r: int, c: int|
                #![trigger v1.graph[r][c]]
                vy <= r < vy + n && vx <= c < vx + 8 ==> v1.graph[r][c] == true
        }),
{
    lemma_pixel_ff();
    lemma_draw_on_blank(v, x, y, n);
}

/// XOR idempotence of the draw operation: drawing the same sprite at the
/// same place twice, starting from an all-off framebuffer, clears every cell
/// back to off, and the second draw reports a collision whenever the sprite
/// has any set bit. The coordinate selectors stay clear of register 0xF,
/// which the first draw overwrites with its flag.
pub proof fn lemma_draw_twice_restores(v: CpuV, x: u8, y: u8, n: u8)
    requires
        v.wf(),
        x < 15,
        y < 15,
        n < 16,
        v.reg[x as int] + 8 <= 64,
        v.reg[y as int] + n <= 32,
        v.i + n <= 4096,
        forall|r: int, c: int|
            #![trigger v.graph[r][c]]
            0 <= r < 32 && 0 <= c < 64 ==> v.graph[r][c] == false,
        exists|r: int, b: u8|
            0 <= r < n && b < 8 && #[trigger] sprite_pixel(v.memory[v.i + r], b),
    ensures
        ({
            let v1 = sem_drw(v, x, y, n);
            let v2 = sem_drw(v1, x, y, n);
            &&& v2.reg[15] == 1
            &&& forall|r: int, c: int|
                #![trigger v2.graph[r][c]]
                0 <= r < 32 && 0 <= c < 64 ==> v2.graph[r][c] == false
        }),
{
    let vx = v.reg[x as int];
    let vy = v.reg[y as int];
    let v1 = sem_drw(v, x, y, n);
    lemma_blit_pointwise(v.memory, v.graph, v.i, vx, vy, n as int);
    assert(v1.reg[x as int] == vx);
    assert(v1.reg[y as int] == vy);
    assert(v1.memory == v.memory);
    assert(v1.i == v.i);
    lemma_blit_pointwise(v1.memory, v1.graph, v1.i, vx, vy, n as int);
    let res2 = blit_upto(v1.memory, v1.graph, false, v1.i, vx, vy, n as int);
    let (r0, b0) = choose|r: int, b: u8|
        0 <= r < n && b < 8 && #[trigger] sprite_pixel(v.memory[v.i + r], b);
    let rr = vy + r0;
    let cc = vx + b0;
    assert(v1.graph[rr][cc] == true);
    assert(vy <= rr < vy + n && vx <= cc < vx + 8 && sprite_pixel(
        v1.memory[v1.i + (rr - vy)],
        (cc - vx) as u8,
    ) && v1.graph[rr][cc]);
    assert(res2.1);
}

} // verus!
