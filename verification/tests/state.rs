use chip8::Cpu;
use chip8::Fault;

fn fresh() -> Cpu {
    let mut c = Cpu::default();
    c.init();
    c
}

#[test]
fn init_writes_font_and_resets_registers() {
    let c = fresh();
    assert_eq!(c.memory.len(), 4096);
    assert_eq!(c.memory[0], 0xF0);
    assert_eq!(c.memory[4], 0xF0);
    assert_eq!(c.memory[5], 0x20);
    assert_eq!(c.memory[79], 0x80);
    assert_eq!(c.memory[80], 0);
    assert_eq!(c.pc, 0x200);
    assert_eq!(c.sp, 0);
    assert_eq!(c.i, 0);
    assert_eq!(c.delay_timer, 0);
    assert_eq!(c.sound_timer, 0);
    assert!(!c.draw_flag);
    assert!(c.v.iter().all(|&b| b == 0));
    assert!(c.gfx.iter().all(|&b| b == 0));
    assert!(c.keys.iter().all(|&b| b == 0));
}

#[test]
fn init_reproduces_the_standard_font_table() {
    let c = fresh();
    let expected: Vec<u8> = vec![
        0xF0, 0x90, 0x90, 0x90, 0xF0, 0x20, 0x60, 0x20, 0x20, 0x70, 0xF0, 0x10, 0xF0, 0x80,
        0xF0, 0xF0, 0x10, 0xF0, 0x10, 0xF0, 0x90, 0x90, 0xF0, 0x10, 0x10, 0xF0, 0x80, 0xF0,
        0x10, 0xF0, 0xF0, 0x80, 0xF0, 0x90, 0xF0, 0xF0, 0x10, 0x20, 0x40, 0x40, 0xF0, 0x90,
        0xF0, 0x90, 0xF0, 0xF0, 0x90, 0xF0, 0x10, 0xF0, 0xF0, 0x90, 0xF0, 0x90, 0x90, 0xE0,
        0x90, 0xE0, 0x90, 0xE0, 0xF0, 0x80, 0x80, 0x80, 0xF0, 0xE0, 0x90, 0x90, 0x90, 0xE0,
        0xF0, 0x80, 0xF0, 0x80, 0xF0, 0xF0, 0x80, 0xF0, 0x80, 0x80,
    ];
    assert_eq!(&c.memory[0..80], &expected[..]);
}

#[test]
fn load_program_copies_bytes_to_0x200() {
    let mut c = fresh();
    let prog: Vec<u8> = vec![0x60, 0x2A, 0x12, 0x00];
    assert_eq!(c.load_program(&prog), Ok(()));
    assert_eq!(c.memory[0x200], 0x60);
    assert_eq!(c.memory[0x201], 0x2A);
    assert_eq!(c.memory[0x202], 0x12);
    assert_eq!(c.memory[0x203], 0x00);
    assert_eq!(c.memory[0x204], 0);
    assert_eq!(c.memory[0x1FF], 0);
}

#[test]
fn load_program_accepts_the_largest_image() {
    let mut c = fresh();
    let prog: Vec<u8> = vec![0xAB; 3584];
    assert_eq!(c.load_program(&prog), Ok(()));
    assert_eq!(c.memory[0x200], 0xAB);
    assert_eq!(c.memory[4095], 0xAB);
}

#[test]
fn load_program_rejects_an_oversized_image() {
    let mut c = fresh();
    let prog: Vec<u8> = vec![0xAB; 3585];
    assert_eq!(c.load_program(&prog), Err(Fault::ProgramTooLarge));
    assert_eq!(c.memory[0x200], 0);
    assert_eq!(c.pc, 0x200);
}
