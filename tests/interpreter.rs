use chip8::{decode, Chip8, Chip8Error, FrontError, Instruction, DISPLAY_SIZE, FRAME_DURATION};

fn machine_with(program: &[u8]) -> Chip8 {
    let mut m = Chip8::new();
    m.load_rom(program).unwrap();
    m
}

#[test]
fn new_machine_holds_font_and_zeros() {
    let m = Chip8::new();
    assert_eq!(&m.memory[0..5], &[0xF0, 0x90, 0x90, 0x90, 0xF0]);
    assert_eq!(&m.memory[75..80], &[0xF0, 0x80, 0xF0, 0x80, 0x80]);
    assert!(m.memory[80..].iter().all(|&b| b == 0));
    assert_eq!(m.pc, 512);
    assert_eq!(m.i, 0);
    assert!(m.stack.is_empty());
    assert_eq!(m.delay_timer, 0);
    assert_eq!(m.sound_timer, 0);
    assert_eq!(m.registers, [0u8; 16]);
    assert_eq!(m.display, [0u8; DISPLAY_SIZE]);
    assert_eq!(m.keypad, 0);
}

#[test]
fn rom_of_full_size_loads() {
    let mut m = Chip8::new();
    let rom = vec![0xABu8; 4096 - 512];
    assert_eq!(m.load_rom(&rom), Ok(()));
    assert_eq!(m.memory[512], 0xAB);
    assert_eq!(m.memory[4095], 0xAB);
    assert_eq!(m.memory[511], 0);
}

#[test]
fn rom_one_byte_too_large_is_refused() {
    let mut m = Chip8::new();
    let rom = vec![0xABu8; 4096 - 512 + 1];
    assert_eq!(m.load_rom(&rom), Err(Chip8Error::Capacity));
    assert!(m.memory[512..].iter().all(|&b| b == 0));
}

#[test]
fn clear_screen_program_blanks_display() {
    let mut m = machine_with(&[0x00, 0xE0]);
    m.display = [0xFF; DISPLAY_SIZE];
    // the zero bytes after the program do not decode, which ends the frame
    assert_eq!(m.frame(), Err(Chip8Error::InvalidOpcode(0, 0, 0, 0)));
    assert_eq!(m.display, [0u8; DISPLAY_SIZE]);
}

#[test]
fn load_then_add_wraps() {
    let mut m = machine_with(&[0x60, 0x05, 0x70, 0xFF]);
    m.pc += 2;
    assert_eq!(m.step(0x60, 0x05), Ok(27));
    m.pc += 2;
    assert_eq!(m.step(0x70, 0xFF), Ok(45));
    assert_eq!(m.registers[0], 4);
    assert_eq!(m.registers[15], 0);
}

#[test]
fn load_then_add_in_a_frame() {
    let mut m = machine_with(&[0x60, 0x05, 0x70, 0xFF, 0x12, 0x04]);
    assert_eq!(m.frame(), Ok(()));
    assert_eq!(m.registers[0], 4);
}

#[test]
fn jump_to_self_runs_every_frame() {
    let mut m = machine_with(&[0x00, 0xE0, 0x12, 0x02]);
    for _ in 0..10 {
        assert_eq!(m.frame(), Ok(()));
        assert_eq!(m.pc, 0x202);
    }
}

#[test]
fn key_wait_blocks_then_takes_lowest_key() {
    let mut m = machine_with(&[0xF3, 0x0A, 0x12, 0x02]);
    m.registers[3] = 0x77;
    for _ in 0..3 {
        assert_eq!(m.frame(), Ok(()));
        assert_eq!(m.pc, 0x200);
        assert_eq!(m.registers[3], 0x77);
    }
    m.keypad = (1 << 7) | (1 << 2);
    assert_eq!(m.frame(), Ok(()));
    assert_eq!(m.registers[3], 2);
    assert_eq!(m.pc, 0x202);
}

#[test]
fn key_wait_costs_a_frame() {
    let mut m = Chip8::new();
    m.pc = 0x202;
    assert_eq!(m.execute(Instruction::LdKey { x: 0 }, 0), Ok(FRAME_DURATION as usize));
    assert_eq!(m.pc, 0x200);
    m.keypad = 1 << 15;
    assert_eq!(m.execute(Instruction::LdKey { x: 0 }, 0), Ok(200));
    assert_eq!(m.registers[0], 15);
}

#[test]
fn add_sets_carry() {
    let mut m = Chip8::new();
    m.registers[1] = 200;
    m.registers[2] = 100;
    assert_eq!(m.execute(Instruction::AddReg { x: 1, y: 2 }, 0), Ok(200));
    assert_eq!(m.registers[1], 44);
    assert_eq!(m.registers[15], 1);
    m.registers[1] = 100;
    m.registers[2] = 155;
    m.execute(Instruction::AddReg { x: 1, y: 2 }, 0).unwrap();
    assert_eq!(m.registers[1], 255);
    assert_eq!(m.registers[15], 0);
}

#[test]
fn sub_sets_no_borrow() {
    let mut m = Chip8::new();
    m.registers[1] = 5;
    m.registers[2] = 7;
    m.execute(Instruction::Sub { x: 1, y: 2 }, 0).unwrap();
    assert_eq!(m.registers[1], 254);
    assert_eq!(m.registers[15], 0);
    m.registers[1] = 7;
    m.registers[2] = 5;
    m.execute(Instruction::Sub { x: 1, y: 2 }, 0).unwrap();
    assert_eq!(m.registers[1], 2);
    assert_eq!(m.registers[15], 1);
    m.registers[1] = 9;
    m.registers[2] = 9;
    m.execute(Instruction::Sub { x: 1, y: 2 }, 0).unwrap();
    assert_eq!(m.registers[1], 0);
    assert_eq!(m.registers[15], 1);
}

#[test]
fn subn_and_shifts() {
    let mut m = Chip8::new();
    m.registers[1] = 7;
    m.registers[2] = 5;
    m.execute(Instruction::Subn { x: 1, y: 2 }, 0).unwrap();
    assert_eq!(m.registers[1], 254);
    assert_eq!(m.registers[15], 0);
    m.registers[3] = 0b101;
    m.execute(Instruction::Shr { x: 3 }, 0).unwrap();
    assert_eq!(m.registers[3], 0b10);
    assert_eq!(m.registers[15], 1);
    m.registers[4] = 0x81;
    m.execute(Instruction::Shl { x: 4 }, 0).unwrap();
    assert_eq!(m.registers[4], 0x02);
    assert_eq!(m.registers[15], 1);
}

#[test]
fn bitwise_register_ops() {
    let mut m = Chip8::new();
    m.registers[0] = 0b1100;
    m.registers[1] = 0b1010;
    m.execute(Instruction::Or { x: 0, y: 1 }, 0).unwrap();
    assert_eq!(m.registers[0], 0b1110);
    m.execute(Instruction::And { x: 0, y: 1 }, 0).unwrap();
    assert_eq!(m.registers[0], 0b1010);
    m.execute(Instruction::Xor { x: 0, y: 1 }, 0).unwrap();
    assert_eq!(m.registers[0], 0);
    m.execute(Instruction::LdReg { x: 0, y: 1 }, 0).unwrap();
    assert_eq!(m.registers[0], 0b1010);
}

#[test]
fn drawing_twice_restores_screen() {
    let mut m = Chip8::new();
    m.display[5] = 0x5A;
    let before = m.display;
    m.i = 0;
    m.registers[0] = 13;
    m.registers[1] = 7;
    assert_eq!(m.execute(Instruction::Drw { x: 0, y: 1, n: 5 }, 0), Ok(22734));
    assert_ne!(m.display, before);
    m.execute(Instruction::Drw { x: 0, y: 1, n: 5 }, 0).unwrap();
    assert_eq!(m.display, before);
    assert_eq!(m.registers[15], 1);
}

#[test]
fn draw_on_blank_screen_has_no_collision() {
    let mut m = Chip8::new();
    m.registers[15] = 1;
    m.execute(Instruction::Drw { x: 0, y: 1, n: 5 }, 0).unwrap();
    assert_eq!(m.registers[15], 0);
    assert_eq!(m.display[0], 0xF0);
    assert_eq!(m.display[8], 0x90);
    assert_eq!(m.display[32], 0xF0);
}

#[test]
fn sprite_wraps_at_both_edges() {
    let mut m = Chip8::new();
    m.i = 0;
    m.registers[0] = 62;
    m.registers[1] = 30;
    m.execute(Instruction::Drw { x: 0, y: 1, n: 5 }, 0).unwrap();
    assert_eq!(m.display[30 * 8 + 7], 0x03);
    assert_eq!(m.display[30 * 8], 0xC0);
    assert_eq!(m.display[31 * 8 + 7], 0x02);
    assert_eq!(m.display[31 * 8], 0x40);
    assert_eq!(m.display[7], 0x02);
    assert_eq!(m.display[0], 0x40);
    assert_eq!(m.display[2 * 8 + 7], 0x03);
    assert_eq!(m.display[2 * 8], 0xC0);
    assert_eq!(m.display.iter().filter(|&&b| b != 0).count(), 10);
}

#[test]
fn draw_past_memory_is_an_error() {
    let mut m = Chip8::new();
    m.i = 4093;
    assert_eq!(
        m.execute(Instruction::Drw { x: 0, y: 0, n: 4 }, 0),
        Err(Chip8Error::MemoryOutOfBounds)
    );
    assert_eq!(m.display, [0u8; DISPLAY_SIZE]);
}

#[test]
fn invalid_opcodes_are_reported() {
    assert_eq!(decode(0x00, 0x00), Err(Chip8Error::InvalidOpcode(0, 0, 0, 0)));
    assert_eq!(decode(0x81, 0x28), Err(Chip8Error::InvalidOpcode(8, 1, 2, 8)));
    assert_eq!(decode(0xE1, 0x00), Err(Chip8Error::InvalidOpcode(0xE, 1, 0, 0)));
    assert_eq!(decode(0xF2, 0x99), Err(Chip8Error::InvalidOpcode(0xF, 2, 9, 9)));
    let mut m = Chip8::new();
    assert_eq!(m.step(0x81, 0x28), Err(Chip8Error::InvalidOpcode(8, 1, 2, 8)));
}

#[test]
fn decode_extracts_fields() {
    assert_eq!(decode(0x1A, 0xBC), Ok(Instruction::Jp { addr: 0xABC }));
    assert_eq!(decode(0xB3, 0x00), Ok(Instruction::JpV0 { addr: 0x300 }));
    assert_eq!(decode(0xD1, 0x25), Ok(Instruction::Drw { x: 1, y: 2, n: 5 }));
    assert_eq!(decode(0x84, 0x5E), Ok(Instruction::Shl { x: 4 }));
    assert_eq!(decode(0xF7, 0x33), Ok(Instruction::LdBcd { x: 7 }));
    assert_eq!(decode(0xE5, 0xA1), Ok(Instruction::Sknp { x: 5 }));
    assert_eq!(decode(0x00, 0xEE), Ok(Instruction::Ret));
}

#[test]
fn return_with_empty_stack_fails() {
    let mut m = Chip8::new();
    assert_eq!(m.execute(Instruction::Ret, 0), Err(Chip8Error::StackUnderflow));
}

#[test]
fn call_and_return() {
    let mut m = Chip8::new();
    m.pc = 0x204;
    assert_eq!(m.execute(Instruction::Call { addr: 0x300 }, 0), Ok(105));
    assert_eq!(m.pc, 0x300);
    assert_eq!(m.stack, vec![0x204]);
    assert_eq!(m.execute(Instruction::Ret, 0), Ok(105));
    assert_eq!(m.pc, 0x204);
    assert!(m.stack.is_empty());
}

#[test]
fn pc_at_memory_end_is_out_of_bounds() {
    let mut m = Chip8::new();
    m.pc = 4095;
    assert_eq!(m.frame(), Err(Chip8Error::OutOfBounds));
}

#[test]
fn timers_tick_down_to_zero() {
    let mut m = machine_with(&[0x12, 0x00]);
    m.delay_timer = 2;
    m.sound_timer = 1;
    m.frame().unwrap();
    assert_eq!((m.delay_timer, m.sound_timer), (1, 0));
    m.frame().unwrap();
    assert_eq!((m.delay_timer, m.sound_timer), (0, 0));
    m.frame().unwrap();
    assert_eq!((m.delay_timer, m.sound_timer), (0, 0));
}

#[test]
fn skips_and_their_costs() {
    let mut m = Chip8::new();
    m.registers[2] = 9;
    assert_eq!(m.execute(Instruction::SeByte { x: 2, nn: 9 }, 0), Ok(64));
    assert_eq!(m.pc, 514);
    assert_eq!(m.execute(Instruction::SneByte { x: 2, nn: 9 }, 0), Ok(46));
    assert_eq!(m.pc, 514);
    assert_eq!(m.execute(Instruction::SeReg { x: 2, y: 3 }, 0), Ok(64));
    assert_eq!(m.execute(Instruction::SneReg { x: 2, y: 3 }, 0), Ok(82));
    assert_eq!(m.pc, 516);
    m.keypad = 1 << 9;
    assert_eq!(m.execute(Instruction::Skp { x: 2 }, 0), Ok(64));
    assert_eq!(m.pc, 518);
    assert_eq!(m.execute(Instruction::Sknp { x: 2 }, 0), Ok(82));
    assert_eq!(m.pc, 518);
}

#[test]
fn random_byte_is_masked() {
    let mut m = Chip8::new();
    assert_eq!(m.execute(Instruction::Rnd { x: 1, nn: 0x0F }, 0xAB), Ok(164));
    assert_eq!(m.registers[1], 0x0B);
    for _ in 0..20 {
        assert_eq!(m.step(0xC2, 0x30), Ok(164));
        assert_eq!(m.registers[2] & !0x30, 0);
    }
}

#[test]
fn decimal_digits_are_stored() {
    let mut m = Chip8::new();
    m.i = 0x300;
    m.registers[7] = 234;
    assert_eq!(m.execute(Instruction::LdBcd { x: 7 }, 0), Ok(364 + 9 * 73));
    assert_eq!(&m.memory[0x300..0x303], &[2, 3, 4]);
    m.i = 4094;
    assert_eq!(m.execute(Instruction::LdBcd { x: 7 }, 0), Err(Chip8Error::MemoryOutOfBounds));
}

#[test]
fn registers_round_trip_through_memory() {
    let mut m = Chip8::new();
    m.i = 0x400;
    for k in 0..16 {
        m.registers[k] = k as u8 * 3 + 1;
    }
    assert_eq!(m.execute(Instruction::StoreRegs { x: 3 }, 0), Ok(64 * 5));
    assert_eq!(&m.memory[0x400..0x405], &[1, 4, 7, 10, 0]);
    m.registers = [0; 16];
    assert_eq!(m.execute(Instruction::LoadRegs { x: 2 }, 0), Ok(64 * 4));
    assert_eq!(&m.registers[0..4], &[1, 4, 7, 0]);
}

#[test]
fn index_and_timer_ops() {
    let mut m = Chip8::new();
    m.registers[0] = 0xA;
    assert_eq!(m.execute(Instruction::LdFont { x: 0 }, 0), Ok(91));
    assert_eq!(m.i, 50);
    m.i = 0xFFFF;
    m.registers[1] = 2;
    assert_eq!(m.execute(Instruction::AddI { x: 1 }, 0), Ok(86));
    assert_eq!(m.i, 1);
    assert_eq!(m.execute(Instruction::LdI { addr: 0x123 }, 0), Ok(55));
    assert_eq!(m.i, 0x123);
    m.registers[3] = 40;
    m.execute(Instruction::LdDtVx { x: 3 }, 0).unwrap();
    m.execute(Instruction::LdStVx { x: 3 }, 0).unwrap();
    assert_eq!((m.delay_timer, m.sound_timer), (40, 40));
    m.execute(Instruction::LdVxDt { x: 5 }, 0).unwrap();
    assert_eq!(m.registers[5], 40);
}

#[test]
fn jumps() {
    let mut m = Chip8::new();
    m.registers[0] = 4;
    assert_eq!(m.execute(Instruction::JpV0 { addr: 0x300 }, 0), Ok(105));
    assert_eq!(m.pc, 0x304);
    assert_eq!(m.step(0x1A, 0xBC), Ok(105));
    assert_eq!(m.pc, 0xABC);
}

#[test]
fn front_errors_convert() {
    assert!(matches!(FrontError::from(Chip8Error::Capacity), FrontError::Chip8(Chip8Error::Capacity)));
    assert!(matches!(FrontError::from("no window".to_string()), FrontError::Host(ref s) if s == "no window"));
    let io = std::io::Error::new(std::io::ErrorKind::NotFound, "missing");
    assert!(matches!(FrontError::from(io), FrontError::Io(_)));
}
