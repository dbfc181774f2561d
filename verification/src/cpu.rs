//! Machine state: the flat memory image, the register file, the call stack,
//! the timers, the keypad latch and the framebuffer, together with the
//! mathematical view that every contract of the machine is stated over.

use vstd::prelude::*;

use crate::isa::ErrorKind;

verus! {

/// Mathematical view of the whole machine state.
#[verifier::ext_equal]
pub ghost struct CpuV {
    /// The 4096-byte memory image.
    pub memory: Seq<u8>,
    /// The 16 general-purpose 8-bit registers; entry 0xF doubles as the
    /// carry/borrow/collision flag.
    pub reg: Seq<u8>,
    /// The 16 keypad latch bits, one byte per key, nonzero meaning pressed.
    pub key: Seq<u8>,
    /// The delay countdown timer.
    pub delay_timer: u8,
    /// The sound countdown timer.
    pub sound_timer: u8,
    /// The framebuffer: 32 rows of 64 cells, `true` meaning the cell is on.
    pub graph: Seq<Seq<bool>>,
    /// The program counter.
    pub pc: u16,
    /// The 16-entry stack of return addresses.
    pub stack: Seq<u16>,
    /// The stack pointer: the number of occupied stack entries.
    pub sp: u16,
    /// The index register I.
    pub i: u16,
    /// Whether the framebuffer changed since it was last presented.
    pub draw_flag: bool,
}

impl CpuV {
    /// Well-formedness: every fixed-size component has its size and the stack
    /// pointer stays within the 16-entry stack.
    pub open spec fn wf(self) -> bool {
        &&& self.memory.len() == 4096
        &&& self.reg.len() == 16
        &&& self.key.len() == 16
        &&& self.stack.len() == 16
        &&& self.graph.len() == 32
        &&& forall|r: int| 0 <= r < 32 ==> (#[trigger] self.graph[r]).len() == 64
        &&& self.sp <= 16
    }
}

/// The machine state. The fields are public so that the surrounding driver
/// can fill the keypad latch and read the redraw flag, as the external input
/// and presentation collaborators do; every verified operation requires and
/// preserves `wf`.
pub struct Cpu {
    /// 4096 bytes of memory; the font table sits at 0..80, programs at 512..
    pub memory: Vec<u8>,
    /// The 16 registers V0..VF.
    pub reg: Vec<u8>,
    /// The 16 keypad latch bytes.
    pub key: Vec<u8>,
    /// The delay timer.
    pub delay_timer: u8,
    /// The sound timer.
    pub sound_timer: u8,
    /// The framebuffer: 32 rows of 64 cells.
    pub graph: Vec<Vec<bool>>,
    /// The program counter.
    pub pc: u16,
    /// The call stack.
    pub stack: Vec<u16>,
    /// The stack pointer.
    pub sp: u16,
    /// The index register I.
    pub i: u16,
    /// The redraw flag.
    pub draw_flag: bool,
}

impl View for Cpu {
    type V = CpuV;

    open spec fn view(&self) -> CpuV {
        CpuV {
            memory: self.memory@,
            reg: self.reg@,
            key: self.key@,
            delay_timer: self.delay_timer,
            sound_timer: self.sound_timer,
            graph: self.graph.deep_view(),
            pc: self.pc,
            stack: self.stack@,
            sp: self.sp,
            i: self.i,
            draw_flag: self.draw_flag,
        }
    }
}

/// The fixed 80-byte font table: 16 glyphs of 5 rows, one row per byte.
pub open spec fn font() -> Seq<u8> {
    seq![
        0xF0u8, 0x90, 0x90, 0x90, 0xF0, // 0
        0x20, 0x60, 0x20, 0x20, 0x70, // 1
        0xF0, 0x10, 0xF0, 0x80, 0xF0, // 2
        0xF0, 0x10, 0xF0, 0x10, 0xF0, // 3
        0x90, 0x90, 0xF0, 0x10, 0x10, // 4
        0xF0, 0x80, 0xF0, 0x10, 0xF0, // 5
        0xF0, 0x80, 0xF0, 0x90, 0xF0, // 6
        0xF0, 0x10, 0x20, 0x40, 0x40, // 7
        0xF0, 0x90, 0xF0, 0x90, 0xF0, // 8
        0xF0, 0x90, 0xF0, 0x10, 0xF0, // 9
        0xF0, 0x90, 0xF0, 0x90, 0x90, // A
        0xE0, 0x90, 0xE0, 0x90, 0xE0, // B
        0xF0, 0x80, 0x80, 0x80, 0xF0, // C
        0xE0, 0x90, 0x90, 0x90, 0xE0, // D
        0xF0, 0x80, 0xF0, 0x80, 0xF0, // E
        0xF0, 0x80, 0xF0, 0x80, 0x80, // F
    ]
}

/// An all-off framebuffer.
pub open spec fn blank_graph() -> Seq<Seq<bool>> {
    Seq::new(32, |r: int| Seq::new(64, |c: int| false))
}

/// The state the machine is constructed in: memory zeroed but for the font
/// table, registers, stack, keys, timers and framebuffer zeroed, PC at 512.
pub open spec fn spec_init() -> CpuV {
    CpuV {
        memory: font() + Seq::new(4016, |i: int| 0u8),
        reg: Seq::new(16, |i: int| 0u8),
        key: Seq::new(16, |i: int| 0u8),
        delay_timer: 0,
        sound_timer: 0,
        graph: blank_graph(),
        pc: 0x200,
        stack: Seq::new(16, |i: int| 0u16),
        sp: 0,
        i: 0,
        draw_flag: false,
    }
}

/// Memory after a program image is copied in verbatim starting at 512.
pub open spec fn spec_load(mem: Seq<u8>, rom: Seq<u8>) -> Seq<u8> {
    Seq::new(4096, |a: int| if 512 <= a < 512 + rom.len() { rom[a - 512] } else { mem[a] })
}

/// Append one five-byte font glyph.
fn push_glyph(v: &mut Vec<u8>, a: u8, b: u8, c: u8, d: u8, e: u8)
    ensures
        final(v)@ == old(v)@ + seq![a, b, c, d, e],
{
    v.push(a);
    v.push(b);
    v.push(c);
    v.push(d);
    v.push(e);
    proof {
        assert(v@ =~= old(v)@ + seq![a, b, c, d, e]);
    }
}

/// Build the font table.
fn font_table() -> (v: Vec<u8>)
    ensures
        v@ == font(),
{
    let mut v: Vec<u8> = Vec::new();
    push_glyph(&mut v, 0xF0, 0x90, 0x90, 0x90, 0xF0);
    push_glyph(&mut v, 0x20, 0x60, 0x20, 0x20, 0x70);
    push_glyph(&mut v, 0xF0, 0x10, 0xF0, 0x80, 0xF0);
    push_glyph(&mut v, 0xF0, 0x10, 0xF0, 0x10, 0xF0);
    push_glyph(&mut v, 0x90, 0x90, 0xF0, 0x10, 0x10);
    push_glyph(&mut v, 0xF0, 0x80, 0xF0, 0x10, 0xF0);
    push_glyph(&mut v, 0xF0, 0x80, 0xF0, 0x90, 0xF0);
    push_glyph(&mut v, 0xF0, 0x10, 0x20, 0x40, 0x40);
    push_glyph(&mut v, 0xF0, 0x90, 0xF0, 0x90, 0xF0);
    push_glyph(&mut v, 0xF0, 0x90, 0xF0, 0x10, 0xF0);
    push_glyph(&mut v, 0xF0, 0x90, 0xF0, 0x90, 0x90);
    push_glyph(&mut v, 0xE0, 0x90, 0xE0, 0x90, 0xE0);
    push_glyph(&mut v, 0xF0, 0x80, 0x80, 0x80, 0xF0);
    push_glyph(&mut v, 0xE0, 0x90, 0x90, 0x90, 0xE0);
    push_glyph(&mut v, 0xF0, 0x80, 0xF0, 0x80, 0xF0);
    push_glyph(&mut v, 0xF0, 0x80, 0xF0, 0x80, 0x80);
    proof {
        assert(v@ =~= font());
    }
    v
}

/// Build a vector of `n` zero bytes.
fn zero_bytes(n: usize) -> (v: Vec<u8>)
    ensures
        v@ == Seq::new(n as nat, |i: int| 0u8),
{
    let mut v: Vec<u8> = Vec::new();
    while v.len() < n
        invariant
            v@.len() <= n,
            forall|i: int| 0 <= i < v@.len() ==> v@[i] == 0u8,
        decreases n - v@.len(),
    {
        v.push(0);
    }
    proof {
        assert(v@ =~= Seq::new(n as nat, |i: int| 0u8));
    }
    v
}

/// Build an all-off framebuffer row.
fn blank_row() -> (v: Vec<bool>)
    ensures
        v@ == Seq::new(64, |c: int| false),
        v.deep_view() == Seq::new(64, |c: int| false),
{
    let mut v: Vec<bool> = Vec::new();
    while v.len() < 64
        invariant
            v@.len() <= 64,
            forall|i: int| 0 <= i < v@.len() ==> v@[i] == false,
        decreases 64 - v@.len(),
    {
        v.push(false);
    }
    proof {
        assert(v@ =~= Seq::new(64, |c: int| false));
        assert(v.deep_view() =~= Seq::new(64, |c: int| false));
    }
    v
}

/// Build an all-off framebuffer.
fn blank_screen() -> (g: Vec<Vec<bool>>)
    ensures
        g.deep_view() == blank_graph(),
{
    let mut g: Vec<Vec<bool>> = Vec::new();
    while g.len() < 32
        invariant
            g@.len() <= 32,
            forall|r: int|
                0 <= r < g@.len() ==> (#[trigger] g@[r]).deep_view() == Seq::new(
                    64,
                    |c: int| false,
                ),
        decreases 32 - g@.len(),
    {
        g.push(blank_row());
    }
    proof {
        assert(g.deep_view() =~~= blank_graph());
    }
    g
}

impl Cpu {
    /// Well-formedness of the machine state; see `CpuV::wf`.
    pub open spec fn wf(&self) -> bool {
        self@.wf()
    }

    /// Construct the machine: memory zeroed except for the font table at
    /// 0..80, everything else zeroed, PC at the program start address 512.
    pub fn new() -> (c: Cpu)
        ensures
            c.wf(),
            c@ == spec_init(),
    {
        let mut memory = font_table();
        let zeros = zero_bytes(4016);
        let mut k: usize = 0;
        while k < 4016
            invariant
                memory@.len() == 80 + k,
                k <= 4016,
                zeros@ == Seq::new(4016, |i: int| 0u8),
                forall|i: int| 0 <= i < 80 ==> memory@[i] == font()[i],
                forall|i: int| 80 <= i < memory@.len() ==> memory@[i] == 0u8,
            decreases 4016 - k,
        {
            memory.push(zeros[k]);
            k = k + 1;
        }
        let c = Cpu {
            memory,
            reg: zero_bytes(16),
            key: zero_bytes(16),
            delay_timer: 0,
            sound_timer: 0,
            graph: blank_screen(),
            pc: 0x200,
            stack: zero_words(16),
            sp: 0,
            i: 0,
            draw_flag: false,
        };
        proof {
            assert(c@.memory =~= spec_init().memory);
            assert(c@ =~~= spec_init());
        }
        c
    }

    /// Set every framebuffer cell to off. The redraw flag is left to the
    /// caller: the clear-screen operation sets it, as `alu::execute` does.
    pub fn clear_screen(&mut self)
        ensures
            final(self)@ == (CpuV { graph: blank_graph(), ..old(self)@ }),
    {
        self.graph = blank_screen();
        proof {
            assert(self@ =~~= (CpuV { graph: blank_graph(), ..old(self)@ }));
        }
    }

    /// Read-only borrow of the framebuffer for the presentation collaborator.
    pub fn get_screen(&self) -> (r: &Vec<Vec<bool>>)
        ensures
            r.deep_view() == self@.graph,
    {
        &self.graph
    }

    /// Copy a program image verbatim into memory starting at address 512.
    /// An image longer than the 3584 bytes of memory past 512 is rejected
    /// whole with `ProgramTooLarge` and the state is unchanged.
    pub fn load_rom(&mut self, rom: &Vec<u8>) -> (r: Result<(), ErrorKind>)
        requires
            old(self).wf(),
        ensures
            final(self).wf(),
            rom@.len() > 3584 ==> r == Err::<(), ErrorKind>(ErrorKind::ProgramTooLarge)
                && final(self)@ == old(self)@,
            rom@.len() <= 3584 ==> r == Ok::<(), ErrorKind>(()) && final(self)@ == (CpuV {
                memory: spec_load(old(self)@.memory, rom@),
                ..old(self)@
            }),
    {
        if rom.len() > 3584 {
            return Err(ErrorKind::ProgramTooLarge);
        }
        let mut j: usize = 0;
        while j < rom.len()
            invariant
                old(self).wf(),
                self.wf(),
                rom@.len() <= 3584,
                j <= rom@.len(),
                self@ == (CpuV { memory: self@.memory, ..old(self)@ }),
                forall|a: int|
                    0 <= a < 4096 ==> self@.memory[a] == if 512 <= a < 512 + j {
                        rom@[a - 512]
                    } else {
                        old(self)@.memory[a]
                    },
            decreases rom@.len() - j,
        {
            self.memory[512 + j] = rom[j];
            j = j + 1;
            proof {
                assert(self@ =~~= (CpuV { memory: self@.memory, ..old(self)@ }));
            }
        }
        proof {
            assert(self@.memory =~= spec_load(old(self)@.memory, rom@));
            assert(self@ =~~= (CpuV { memory: spec_load(old(self)@.memory, rom@), ..old(self)@ }));
        }
        Ok(())
    }
}

/// Build a vector of `n` zero words.
fn zero_words(n: usize) -> (v: Vec<u16>)
    ensures
        v@ == Seq::new(n as nat, |i: int| 0u16),
{
    let mut v: Vec<u16> = Vec::new();
    while v.len() < n
        invariant
            v@.len() <= n,
            forall|i: int| 0 <= i < v@.len() ==> v@[i] == 0u16,
        decreases n - v@.len(),
    {
        v.push(0);
    }
    proof {
        assert(v@ =~= Seq::new(n as nat, |i: int| 0u16));
    }
    v
}

/// The big-endian 16-bit instruction word at the program counter, or `None`
/// where either byte address falls outside memory.
pub open spec fn spec_fetch(v: CpuV) -> Option<u16> {
    if v.pc + 1 < 4096 {
        Some(((v.memory[v.pc as int] as int) * 256 + v.memory[v.pc as int + 1] as int) as u16)
    } else {
        None
    }
}

/// A timer value after one step: decremented by one, floored at zero.
pub open spec fn decr(t: u8) -> u8 {
    if t > 0 {
        (t - 1) as u8
    } else {
        0
    }
}

/// The semantics of one whole step: fetch the word at PC, decode it, execute
/// it, and on success decrement both timers; each failure leaves the state
/// unchanged. `rnd` stands for the byte the randomness source would hand the
/// Random operation.
pub open spec fn spec_tick(v: CpuV, rnd: u8) -> Result<CpuV, ErrorKind> {
    match spec_fetch(v) {
        None => Err(ErrorKind::FetchOutOfBounds),
        Some(w) => match crate::isa::spec_decode(w) {
            None => Err(ErrorKind::UnknownOpcode(w)),
            Some(ins) => match crate::alu::spec_exec(v, ins, rnd) {
                Err(e) => Err(e),
                Ok(v2) => Ok(
                    CpuV {
                        delay_timer: decr(v2.delay_timer),
                        sound_timer: decr(v2.sound_timer),
                        ..v2
                    },
                ),
            },
        },
    }
}

/// How `tick` relates the old state, the new state and the result for a
/// given random byte: the state `spec_tick` gives on success, the old state
/// unchanged on failure.
pub open spec fn tick_rel(v0: CpuV, v1: CpuV, r: Result<(), ErrorKind>, rnd: u8) -> bool {
    match spec_tick(v0, rnd) {
        Ok(v) => r == Ok::<(), ErrorKind>(()) && v1 == v,
        Err(e) => r == Err::<(), ErrorKind>(e) && v1 == v0,
    }
}

/// Whether the step about to run is the Random operation, the one step whose
/// outcome the randomness source decides.
pub open spec fn spec_uses_rand(v: CpuV) -> bool {
    match spec_fetch(v) {
        Some(w) => crate::alu::is_rnd_word(w),
        None => false,
    }
}

impl Cpu {
    /// One fetch-decode-execute cycle followed, on success, by the timer
    /// decrements. For every step but the Random operation the relation holds
    /// with the witness byte 0; for Random it holds with some byte.
    pub fn tick(&mut self) -> (r: Result<(), ErrorKind>)
        requires
            old(self).wf(),
        ensures
            final(self).wf(),
            exists|rnd: u8| #[trigger] tick_rel(old(self)@, final(self)@, r, rnd),
            !spec_uses_rand(old(self)@) ==> tick_rel(old(self)@, final(self)@, r, 0),
    {
        let ghost v0 = self@;
        let w = match self.fetch() {
            None => {
                proof {
                    assert(tick_rel(v0, self@, Err(ErrorKind::FetchOutOfBounds), 0));
                }
                return Err(ErrorKind::FetchOutOfBounds);
            },
            Some(w) => w,
        };
        let res = crate::alu::execute(w, self);
        match res {
            Err(e) => {
                proof {
                    let rnd = choose|rnd: u8|
                        crate::alu::exec_rel(v0, self@, w, Err::<(), ErrorKind>(e), rnd);
                    assert(tick_rel(v0, self@, Err(e), rnd));
                    if !spec_uses_rand(v0) {
                        assert(tick_rel(v0, self@, Err(e), 0));
                    }
                }
                Err(e)
            },
            Ok(_) => {
                let ghost v_mid = self@;
                if self.delay_timer > 0 {
                    self.delay_timer = self.delay_timer - 1;
                }
                if self.sound_timer > 0 {
                    self.sound_timer = self.sound_timer - 1;
                }
                proof {
                    let rnd = choose|rnd: u8|
                        crate::alu::exec_rel(v0, v_mid, w, Ok::<(), ErrorKind>(()), rnd);
                    assert(self@ =~~= (CpuV {
                        delay_timer: decr(v_mid.delay_timer),
                        sound_timer: decr(v_mid.sound_timer),
                        ..v_mid
                    }));
                    assert(tick_rel(v0, self@, Ok(()), rnd));
                    if !spec_uses_rand(v0) {
                        assert(crate::alu::exec_rel(v0, v_mid, w, Ok::<(), ErrorKind>(()), 0));
                        assert(tick_rel(v0, self@, Ok(()), 0));
                    }
                }
                Ok(())
            },
        }
    }

    /// Fetch the instruction word at the program counter.
    pub fn fetch(&self) -> (r: Option<u16>)
        requires
            self.wf(),
        ensures
            r == spec_fetch(self@),
    {
        if (self.pc as usize) + 1 < 4096 {
            let hi = self.memory[self.pc as usize];
            let lo = self.memory[(self.pc as usize) + 1];
            Some((hi as u16) * 256 + (lo as u16))
        } else {
            None
        }
    }
}

} // verus!
