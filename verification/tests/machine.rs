//! End-to-end tests of the machine: ALU flags, drawing, the call stack, the
//! font table, BCD storage, key handling, the timers and the loader.

use chip8_emu::alu::execute;
use chip8_emu::cpu::Cpu;
use chip8_emu::isa::{decode, AluOp, ErrorKind, Instr};

/// Write one big-endian instruction word at the program counter.
fn put_op(cpu: &mut Cpu, addr: usize, w: u16) {
    cpu.memory[addr] = (w >> 8) as u8;
    cpu.memory[addr + 1] = (w & 0xFF) as u8;
}

#[test]
fn add_sets_carry_flag() {
    let mut cpu = Cpu::new();
    cpu.reg[1] = 200;
    cpu.reg[2] = 100;
    execute(0x8124, &mut cpu).unwrap();
    assert_eq!(cpu.reg[1], 44); // (200 + 100) mod 256
    assert_eq!(cpu.reg[15], 1);
}

#[test]
fn add_without_carry() {
    let mut cpu = Cpu::new();
    cpu.reg[1] = 1;
    cpu.reg[2] = 2;
    cpu.reg[15] = 1; // stale flag must be overwritten
    execute(0x8124, &mut cpu).unwrap();
    assert_eq!(cpu.reg[1], 3);
    assert_eq!(cpu.reg[15], 0);
}

#[test]
fn sub_flag_is_no_borrow() {
    let mut cpu = Cpu::new();
    cpu.reg[3] = 5;
    cpu.reg[4] = 3;
    execute(0x8345, &mut cpu).unwrap();
    assert_eq!(cpu.reg[3], 2);
    assert_eq!(cpu.reg[15], 1);

    let mut cpu = Cpu::new();
    cpu.reg[3] = 3;
    cpu.reg[4] = 5;
    execute(0x8345, &mut cpu).unwrap();
    assert_eq!(cpu.reg[3], 254); // (3 - 5) mod 256
    assert_eq!(cpu.reg[15], 0);
}

#[test]
fn subn_reverses_operands() {
    let mut cpu = Cpu::new();
    cpu.reg[1] = 3;
    cpu.reg[2] = 10;
    execute(0x8127, &mut cpu).unwrap();
    assert_eq!(cpu.reg[1], 7); // Vy - Vx
    assert_eq!(cpu.reg[15], 1); // Vx < Vy
}

#[test]
fn shr_extracts_low_bit_before_shifting() {
    let mut cpu = Cpu::new();
    cpu.reg[6] = 5;
    execute(0x8606, &mut cpu).unwrap();
    assert_eq!(cpu.reg[6], 2);
    assert_eq!(cpu.reg[15], 1);

    let mut cpu = Cpu::new();
    cpu.reg[6] = 4;
    execute(0x8606, &mut cpu).unwrap();
    assert_eq!(cpu.reg[6], 2);
    assert_eq!(cpu.reg[15], 0);
}

#[test]
fn shl_extracts_high_bit_before_shifting() {
    let mut cpu = Cpu::new();
    cpu.reg[6] = 0x81;
    execute(0x860E, &mut cpu).unwrap();
    assert_eq!(cpu.reg[6], 2); // (0x81 << 1) mod 256
    assert_eq!(cpu.reg[15], 1);

    let mut cpu = Cpu::new();
    cpu.reg[6] = 0x41;
    execute(0x860E, &mut cpu).unwrap();
    assert_eq!(cpu.reg[6], 0x82);
    assert_eq!(cpu.reg[15], 0);
}

#[test]
fn or_and_xor() {
    let mut cpu = Cpu::new();
    cpu.reg[0] = 0b1100;
    cpu.reg[1] = 0b1010;
    execute(0x8011, &mut cpu).unwrap();
    assert_eq!(cpu.reg[0], 0b1110);

    cpu.reg[0] = 0b1100;
    execute(0x8012, &mut cpu).unwrap();
    assert_eq!(cpu.reg[0], 0b1000);

    cpu.reg[0] = 0b1100;
    execute(0x8013, &mut cpu).unwrap();
    assert_eq!(cpu.reg[0], 0b0110);
}

#[test]
fn draw_all_ones_on_blank_screen() {
    let mut cpu = Cpu::new();
    cpu.i = 0x300;
    for r in 0..3 {
        cpu.memory[0x300 + r] = 0xFF;
    }
    cpu.reg[0] = 10; // column
    cpu.reg[1] = 5; // row
    execute(0xD013, &mut cpu).unwrap();
    for r in 5..8 {
        for c in 10..18 {
            assert!(cpu.graph[r][c]);
        }
    }
    assert_eq!(cpu.reg[15], 0);
    assert!(cpu.draw_flag);
    // an untouched cell stays off
    assert!(!cpu.graph[4][10]);
    assert!(!cpu.graph[5][18]);
}

#[test]
fn draw_twice_clears_and_collides() {
    let mut cpu = Cpu::new();
    cpu.i = 0x300;
    for r in 0..3 {
        cpu.memory[0x300 + r] = 0xFF;
    }
    cpu.reg[0] = 10;
    cpu.reg[1] = 5;
    execute(0xD013, &mut cpu).unwrap();
    execute(0xD013, &mut cpu).unwrap();
    for r in 0..32 {
        for c in 0..64 {
            assert!(!cpu.graph[r][c]);
        }
    }
    assert_eq!(cpu.reg[15], 1);
}

#[test]
fn call_then_ret_round_trip() {
    let mut cpu = Cpu::new();
    put_op(&mut cpu, 0x200, 0x2300); // CALL 0x300
    put_op(&mut cpu, 0x300, 0x00EE); // RET
    cpu.tick().unwrap();
    assert_eq!(cpu.pc, 0x300);
    assert_eq!(cpu.sp, 1);
    cpu.tick().unwrap();
    assert_eq!(cpu.pc, 0x202);
    assert_eq!(cpu.sp, 0);
}

#[test]
fn sixteen_nested_calls_then_overflow() {
    let mut cpu = Cpu::new();
    for k in 0..17 {
        // a chain of CALLs: each target holds another CALL
        put_op(&mut cpu, 0x200 + 2 * k, 0x2000 | (0x200 + 2 * (k as u16 + 1)));
    }
    for _ in 0..16 {
        cpu.tick().unwrap();
    }
    assert_eq!(cpu.sp, 16);
    assert_eq!(cpu.tick(), Err(ErrorKind::StackOverflow));
}

#[test]
fn ret_with_empty_stack_underflows() {
    let mut cpu = Cpu::new();
    put_op(&mut cpu, 0x200, 0x00EE);
    assert_eq!(cpu.tick(), Err(ErrorKind::StackUnderflow));
    assert_eq!(cpu.pc, 0x200); // state untouched by the failure
}

#[test]
fn font_glyph_address_for_a() {
    let mut cpu = Cpu::new();
    cpu.reg[2] = 0xA;
    execute(0xF229, &mut cpu).unwrap();
    assert_eq!(cpu.i, 50);
    assert_eq!(&cpu.memory[50..55], &[0xF0, 0x90, 0xF0, 0x90, 0x90]);
}

#[test]
fn bcd_store_of_234() {
    let mut cpu = Cpu::new();
    cpu.reg[7] = 234;
    cpu.i = 0x400;
    execute(0xF733, &mut cpu).unwrap();
    assert_eq!(cpu.memory[0x400], 2);
    assert_eq!(cpu.memory[0x401], 3);
    assert_eq!(cpu.memory[0x402], 4);
}

#[test]
fn wait_key_stalls_without_keys() {
    let mut cpu = Cpu::new();
    put_op(&mut cpu, 0x200, 0xF30A);
    cpu.delay_timer = 2;
    cpu.tick().unwrap();
    assert_eq!(cpu.pc, 0x200); // PC unchanged: the instruction re-runs
    assert_eq!(cpu.delay_timer, 1); // but the step succeeded, timers ran
}

#[test]
fn wait_key_takes_pressed_key() {
    let mut cpu = Cpu::new();
    put_op(&mut cpu, 0x200, 0xF30A);
    cpu.key[5] = 1;
    cpu.tick().unwrap();
    assert_eq!(cpu.reg[3], 5);
    assert_eq!(cpu.pc, 0x202);
}

#[test]
fn wait_key_highest_index_wins() {
    let mut cpu = Cpu::new();
    put_op(&mut cpu, 0x200, 0xF30A);
    cpu.key[3] = 1;
    cpu.key[7] = 1;
    cpu.tick().unwrap();
    assert_eq!(cpu.reg[3], 7);
    assert_eq!(cpu.pc, 0x202);
}

#[test]
fn timers_decrement_once_per_tick_floored_at_zero() {
    let mut cpu = Cpu::new();
    put_op(&mut cpu, 0x200, 0x6105); // LD V1, 5
    cpu.delay_timer = 5;
    cpu.sound_timer = 0;
    cpu.tick().unwrap();
    assert_eq!(cpu.delay_timer, 4);
    assert_eq!(cpu.sound_timer, 0);
}

#[test]
fn timers_untouched_on_failing_tick() {
    let mut cpu = Cpu::new();
    put_op(&mut cpu, 0x200, 0x0123); // unknown opcode
    cpu.delay_timer = 5;
    assert_eq!(cpu.tick(), Err(ErrorKind::UnknownOpcode(0x0123)));
    assert_eq!(cpu.delay_timer, 5);
}

#[test]
fn set_and_read_timers() {
    let mut cpu = Cpu::new();
    cpu.reg[4] = 42;
    execute(0xF415, &mut cpu).unwrap(); // DT := V4
    assert_eq!(cpu.delay_timer, 42);
    execute(0xF418, &mut cpu).unwrap(); // ST := V4
    assert_eq!(cpu.sound_timer, 42);
    cpu.delay_timer = 9;
    execute(0xF507, &mut cpu).unwrap(); // V5 := DT
    assert_eq!(cpu.reg[5], 9);
}

#[test]
fn fetch_out_of_bounds() {
    let mut cpu = Cpu::new();
    cpu.pc = 4095;
    assert_eq!(cpu.tick(), Err(ErrorKind::FetchOutOfBounds));
}

#[test]
fn skips_and_jumps() {
    let mut cpu = Cpu::new();
    cpu.reg[1] = 7;
    execute(0x3107, &mut cpu).unwrap(); // SE V1, 7: taken
    assert_eq!(cpu.pc, 0x204);
    execute(0x3108, &mut cpu).unwrap(); // SE V1, 8: not taken
    assert_eq!(cpu.pc, 0x206);
    execute(0x4108, &mut cpu).unwrap(); // SNE V1, 8: taken
    assert_eq!(cpu.pc, 0x20A);
    cpu.reg[2] = 7;
    execute(0x5120, &mut cpu).unwrap(); // SE V1, V2: taken
    assert_eq!(cpu.pc, 0x20E);
    execute(0x9120, &mut cpu).unwrap(); // SNE V1, V2: not taken
    assert_eq!(cpu.pc, 0x210);
    execute(0x1234, &mut cpu).unwrap(); // JP 0x234
    assert_eq!(cpu.pc, 0x234);
    cpu.reg[0] = 0x10;
    execute(0xB200, &mut cpu).unwrap(); // JP V0 + 0x200
    assert_eq!(cpu.pc, 0x210);
}

#[test]
fn load_and_add_immediate_wraps() {
    let mut cpu = Cpu::new();
    execute(0x61FA, &mut cpu).unwrap(); // V1 := 0xFA
    assert_eq!(cpu.reg[1], 0xFA);
    execute(0x710A, &mut cpu).unwrap(); // V1 += 10, wrapping
    assert_eq!(cpu.reg[1], 4);
    assert_eq!(cpu.reg[15], 0); // no flag from the immediate form
}

#[test]
fn add_index_flags_past_fff() {
    let mut cpu = Cpu::new();
    cpu.i = 0xFFE;
    cpu.reg[1] = 5;
    execute(0xF11E, &mut cpu).unwrap();
    assert_eq!(cpu.i, 0x1003);
    assert_eq!(cpu.reg[15], 1);

    let mut cpu = Cpu::new();
    cpu.i = 0x100;
    cpu.reg[1] = 5;
    execute(0xF11E, &mut cpu).unwrap();
    assert_eq!(cpu.i, 0x105);
    assert_eq!(cpu.reg[15], 0);
}

#[test]
fn block_store_and_load() {
    let mut cpu = Cpu::new();
    for k in 0..4 {
        cpu.reg[k] = 10 + k as u8;
    }
    cpu.i = 0x500;
    execute(0xF355, &mut cpu).unwrap(); // store V0..=V3
    assert_eq!(&cpu.memory[0x500..0x504], &[10, 11, 12, 13]);
    assert_eq!(cpu.i, 0x504);
    assert_eq!(cpu.pc, 0x202);

    cpu.i = 0x500;
    let mut other = Cpu::new();
    other.memory = cpu.memory.clone();
    other.i = 0x500;
    execute(0xF365, &mut other).unwrap(); // load V0..=V3
    assert_eq!(&other.reg[0..4], &[10, 11, 12, 13]);
    assert_eq!(other.i, 0x504);
}

#[test]
fn random_is_masked() {
    for _ in 0..20 {
        let mut cpu = Cpu::new();
        cpu.reg[1] = 0xAA;
        execute(0xC100, &mut cpu).unwrap(); // RND V1, 0x00
        assert_eq!(cpu.reg[1], 0); // any byte masked by 0 is 0
        let mut cpu = Cpu::new();
        execute(0xC10F, &mut cpu).unwrap(); // RND V1, 0x0F
        assert_eq!(cpu.reg[1] & 0xF0, 0);
        assert_eq!(cpu.pc, 0x202);
    }
}

#[test]
fn skip_on_key_state() {
    let mut cpu = Cpu::new();
    cpu.reg[1] = 4;
    cpu.key[4] = 1;
    execute(0xE19E, &mut cpu).unwrap(); // SKP V1: taken
    assert_eq!(cpu.pc, 0x204);
    execute(0xE1A1, &mut cpu).unwrap(); // SKNP V1: not taken
    assert_eq!(cpu.pc, 0x206);
    cpu.key[4] = 0;
    execute(0xE1A1, &mut cpu).unwrap(); // SKNP V1: taken
    assert_eq!(cpu.pc, 0x20A);
}

#[test]
fn clear_screen_resets_cells_and_flags_redraw() {
    let mut cpu = Cpu::new();
    cpu.graph[3][7] = true;
    execute(0x00E0, &mut cpu).unwrap();
    for r in 0..32 {
        for c in 0..64 {
            assert!(!cpu.graph[r][c]);
        }
    }
    assert!(cpu.draw_flag);
    assert_eq!(cpu.pc, 0x202);
}

#[test]
fn unknown_opcodes_are_reported() {
    for w in [0x0000u16, 0x00E1, 0x8008, 0xE100, 0xF1FF] {
        let mut cpu = Cpu::new();
        assert_eq!(execute(w, &mut cpu), Err(ErrorKind::UnknownOpcode(w)));
        assert_eq!(cpu.pc, 0x200);
    }
}

#[test]
fn decode_classifies_words() {
    assert_eq!(decode(0x00E0), Some(Instr::Cls));
    assert_eq!(decode(0x00EE), Some(Instr::Ret));
    assert_eq!(decode(0x1ABC), Some(Instr::Jp { nnn: 0xABC }));
    assert_eq!(decode(0x2ABC), Some(Instr::Call { nnn: 0xABC }));
    assert_eq!(decode(0x8128), None);
    assert_eq!(
        decode(0x8124),
        Some(Instr::Alu { op: AluOp::Add, x: 1, y: 2 })
    );
    assert_eq!(decode(0xD123), Some(Instr::Drw { x: 1, y: 2, n: 3 }));
    assert_eq!(decode(0xF365), Some(Instr::LoadRegs { x: 3 }));
    assert_eq!(decode(0xFF99), None);
}

#[test]
fn loader_copies_program_at_512() {
    let mut cpu = Cpu::new();
    let rom = vec![1u8, 2, 3, 4];
    cpu.load_rom(&rom).unwrap();
    assert_eq!(&cpu.memory[512..516], &[1, 2, 3, 4]);
    assert_eq!(cpu.memory[516], 0);
    assert_eq!(cpu.pc, 0x200);
}

#[test]
fn loader_rejects_oversized_program() {
    let mut cpu = Cpu::new();
    let rom = vec![0u8; 3585];
    assert_eq!(cpu.load_rom(&rom), Err(ErrorKind::ProgramTooLarge));
    assert_eq!(cpu.memory[512], 0);
    let rom = vec![7u8; 3584];
    assert_eq!(cpu.load_rom(&rom), Ok(()));
    assert_eq!(cpu.memory[4095], 7);
}

#[test]
fn new_machine_is_blank_with_font() {
    let cpu = Cpu::new();
    assert_eq!(cpu.pc, 0x200);
    assert_eq!(cpu.sp, 0);
    assert_eq!(cpu.i, 0);
    assert_eq!(cpu.memory.len(), 4096);
    assert_eq!(cpu.memory[0], 0xF0); // first font byte
    assert_eq!(cpu.memory[79], 0x80); // last font byte
    assert_eq!(cpu.memory[80], 0);
    assert!(!cpu.draw_flag);
    assert_eq!(cpu.get_screen().len(), 32);
    assert_eq!(cpu.get_screen()[0].len(), 64);
}

#[test]
fn draw_saturates_at_the_screen_edge() {
    let mut cpu = Cpu::new();
    cpu.i = 0x300;
    cpu.memory[0x300] = 0xFF;
    cpu.reg[0] = 60; // columns 60..68 clamp at 63
    cpu.reg[1] = 31;
    execute(0xD011, &mut cpu).unwrap();
    // columns 60..63 toggled once and on; 63 toggled for bits 3..8, five
    // toggles, ending on
    assert!(cpu.graph[31][60]);
    assert!(cpu.graph[31][61]);
    assert!(cpu.graph[31][62]);
    assert!(cpu.graph[31][63]);
    assert_eq!(cpu.reg[15], 1); // repeated toggles of the clamped cell collide
}
