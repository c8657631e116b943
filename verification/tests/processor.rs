use gameboy::cpu::Cpu;
use gameboy::mmu::Mmu;

/// A ROM with `program` at the entry point 0x0100 and `low` at 0x0000.
fn machine(low: &[u8], program: &[u8]) -> (Cpu, Mmu) {
    let mut rom = vec![0u8; 0x100];
    rom[..low.len()].copy_from_slice(low);
    rom.extend_from_slice(program);
    let mut mmu = Mmu::new();
    mmu.load_bytes(&rom);
    (Cpu::new(), mmu)
}

fn run(cpu: &mut Cpu, mmu: &mut Mmu, steps: usize) {
    for _ in 0..steps {
        cpu.step(mmu);
    }
}

#[test]
fn load_and_store_accumulator() {
    let (mut cpu, mut mmu) = machine(&[], &[0x3E, 0x42, 0xEA, 0x00, 0xC0]);
    run(&mut cpu, &mut mmu, 2);
    assert_eq!(mmu.read(0xC000), 0x42);
}

#[test]
fn add_sets_zero_half_and_carry() {
    // LD A, 0x3A; ADD A, 0xC6; PUSH AF
    let (mut cpu, mut mmu) = machine(&[], &[0x3E, 0x3A, 0xC6, 0xC6, 0xF5]);
    run(&mut cpu, &mut mmu, 3);
    assert_eq!(mmu.read(0xFFFD), 0x00);
    assert_eq!(mmu.read(0xFFFC), 0xB0);
}

#[test]
fn sub_sets_negative_and_half_borrow() {
    // LD A, 0x10; SUB A, 0x01; PUSH AF
    let (mut cpu, mut mmu) = machine(&[], &[0x3E, 0x10, 0xD6, 0x01, 0xF5]);
    run(&mut cpu, &mut mmu, 3);
    assert_eq!(mmu.read(0xFFFD), 0x0F);
    assert_eq!(mmu.read(0xFFFC), 0x60);
}

#[test]
fn adc_and_sbc_use_the_carry() {
    // LD A, 0xFF; ADD A, 0x01 (carry); LD A, 0x10; ADC A, 0x01; LD [C000], A;
    // SCF; SBC A, 0x01; LD [C001], A
    let (mut cpu, mut mmu) = machine(
        &[],
        &[
            0x3E, 0xFF, 0xC6, 0x01, 0x3E, 0x10, 0xCE, 0x01, 0xEA, 0x00, 0xC0, 0x37, 0xDE, 0x01,
            0xEA, 0x01, 0xC0,
        ],
    );
    run(&mut cpu, &mut mmu, 8);
    assert_eq!(mmu.read(0xC000), 0x12);
    assert_eq!(mmu.read(0xC001), 0x10);
}

#[test]
fn cp_sets_flags_like_sub_and_keeps_a() {
    // LD B, 0x01; LD A, 0x10; CP B; PUSH AF
    let (mut cpu, mut mmu) = machine(&[], &[0x06, 0x01, 0x3E, 0x10, 0xB8, 0xF5]);
    run(&mut cpu, &mut mmu, 4);
    assert_eq!(mmu.read(0xFFFD), 0x10);
    assert_eq!(mmu.read(0xFFFC), 0x60);
    // LD B, 0x01; LD A, 0x10; SUB B; PUSH AF
    let (mut cpu, mut mmu) = machine(&[], &[0x06, 0x01, 0x3E, 0x10, 0x90, 0xF5]);
    run(&mut cpu, &mut mmu, 4);
    assert_eq!(mmu.read(0xFFFD), 0x0F);
    assert_eq!(mmu.read(0xFFFC), 0x60);
}

#[test]
fn sub_undoes_add() {
    let (mut cpu, mut mmu) = machine(&[], &[0x3E, 0x37, 0xC6, 0x55, 0xD6, 0x55, 0xEA, 0x00, 0xC0]);
    run(&mut cpu, &mut mmu, 4);
    assert_eq!(mmu.read(0xC000), 0x37);
}

#[test]
fn xor_a_clears_a_and_sets_zero() {
    let (mut cpu, mut mmu) = machine(&[], &[0x3E, 0x9C, 0xAF, 0xF5]);
    run(&mut cpu, &mut mmu, 3);
    assert_eq!(mmu.read(0xFFFD), 0x00);
    assert_eq!(mmu.read(0xFFFC), 0x80);
}

#[test]
fn and_or_with_registers_and_memory() {
    // LD HL, 0xC020; LD [HL], 0x0F; LD A, 0xF5; AND [HL]; LD B, 0x30; OR B; LD [C000], A
    let (mut cpu, mut mmu) = machine(
        &[],
        &[0x21, 0x20, 0xC0, 0x36, 0x0F, 0x3E, 0xF5, 0xA6, 0x06, 0x30, 0xB0, 0xEA, 0x00, 0xC0],
    );
    run(&mut cpu, &mut mmu, 7);
    assert_eq!(mmu.read(0xC000), 0x35);
}

#[test]
fn push_then_pop_restores_pair() {
    // LD BC, 0x1234; PUSH BC; LD BC, 0x0000; POP BC; LD A, B; LD [C000], A; LD A, C; LD [C001], A
    let (mut cpu, mut mmu) = machine(
        &[],
        &[
            0x01, 0x34, 0x12, 0xC5, 0x01, 0x00, 0x00, 0xC1, 0x78, 0xEA, 0x00, 0xC0, 0x79, 0xEA,
            0x01, 0xC0,
        ],
    );
    run(&mut cpu, &mut mmu, 8);
    assert_eq!(mmu.read(0xC000), 0x12);
    assert_eq!(mmu.read(0xC001), 0x34);
    assert_eq!(mmu.read(0xFFFD), 0x12);
    assert_eq!(mmu.read(0xFFFC), 0x34);
}

#[test]
fn push_af_then_pop_af_restores_flags() {
    // LD A, 0x3A; ADD A, 0xC6 (Z, H, C); PUSH AF; XOR A (Z only); POP AF; PUSH AF
    let (mut cpu, mut mmu) = machine(&[], &[0x3E, 0x3A, 0xC6, 0xC6, 0xF5, 0xAF, 0xF1, 0xF5]);
    run(&mut cpu, &mut mmu, 6);
    assert_eq!(mmu.read(0xFFFC), 0xB0);
    assert_eq!(mmu.read(0xFFFD), 0x00);
}

#[test]
fn call_then_ret_returns_after_the_call() {
    // 0x0100: CALL 0x0110; LD A, 0x55; LD [C000], A
    // 0x0110: LD A, 0x77; LD [C001], A; RET
    let mut program = vec![0xCD, 0x10, 0x01, 0x3E, 0x55, 0xEA, 0x00, 0xC0];
    program.resize(0x10, 0x00);
    program.extend_from_slice(&[0x3E, 0x77, 0xEA, 0x01, 0xC0, 0xC9]);
    let (mut cpu, mut mmu) = machine(&[], &program);
    run(&mut cpu, &mut mmu, 6);
    assert_eq!(mmu.read(0xC001), 0x77);
    assert_eq!(mmu.read(0xC000), 0x55);
    assert_eq!(mmu.read_word(0xFFFC), 0x0103);
}

#[test]
fn restart_pushes_and_jumps() {
    // 0x0038: LD A, 0x42; LD [C000], A; 0x0100: RST $38
    let mut low = vec![0u8; 0x38];
    low.extend_from_slice(&[0x3E, 0x42, 0xEA, 0x00, 0xC0]);
    let (mut cpu, mut mmu) = machine(&low, &[0xFF]);
    run(&mut cpu, &mut mmu, 3);
    assert_eq!(mmu.read(0xC000), 0x42);
    assert_eq!(mmu.read_word(0xFFFC), 0x0101);
}

#[test]
fn relative_jumps() {
    // JR +2; LD A, 0x11; LD A, 0x22; LD [C000], A
    let (mut cpu, mut mmu) = machine(&[], &[0x18, 0x02, 0x3E, 0x11, 0x3E, 0x22, 0xEA, 0x00, 0xC0]);
    run(&mut cpu, &mut mmu, 3);
    assert_eq!(mmu.read(0xC000), 0x22);
    // LD B, 0; LD A, 3; loop: INC B; DEC A; JR NZ, loop; LD A, B; LD [C000], A
    let (mut cpu, mut mmu) = machine(
        &[],
        &[0x06, 0x00, 0x3E, 0x03, 0x04, 0x3D, 0x20, 0xFC, 0x78, 0xEA, 0x00, 0xC0],
    );
    run(&mut cpu, &mut mmu, 13);
    assert_eq!(mmu.read(0xC000), 0x03);
}

#[test]
fn conditional_jump_not_taken() {
    // XOR A (Z set); JP NZ, 0x0200; LD A, 0x66; LD [C000], A
    let (mut cpu, mut mmu) = machine(&[], &[0xAF, 0xC2, 0x00, 0x02, 0x3E, 0x66, 0xEA, 0x00, 0xC0]);
    run(&mut cpu, &mut mmu, 4);
    assert_eq!(mmu.read(0xC000), 0x66);
}

#[test]
fn inc_then_dec_restores_register() {
    // LD A, 0xFF; INC A; LD [C000], A; DEC A; LD [C001], A
    let (mut cpu, mut mmu) = machine(
        &[],
        &[0x3E, 0xFF, 0x3C, 0xEA, 0x00, 0xC0, 0x3D, 0xEA, 0x01, 0xC0],
    );
    run(&mut cpu, &mut mmu, 5);
    assert_eq!(mmu.read(0xC000), 0x00);
    assert_eq!(mmu.read(0xC001), 0xFF);
}

#[test]
fn rotations_and_complement() {
    // LD A, 0x85; RLCA; LD [C000], A; RRCA; LD [C001], A; CPL; LD [C002], A; CPL; LD [C003], A
    let (mut cpu, mut mmu) = machine(
        &[],
        &[
            0x3E, 0x85, 0x07, 0xEA, 0x00, 0xC0, 0x0F, 0xEA, 0x01, 0xC0, 0x2F, 0xEA, 0x02, 0xC0,
            0x2F, 0xEA, 0x03, 0xC0,
        ],
    );
    run(&mut cpu, &mut mmu, 9);
    assert_eq!(mmu.read(0xC000), 0x0B);
    assert_eq!(mmu.read(0xC001), 0x85);
    assert_eq!(mmu.read(0xC002), 0x7A);
    assert_eq!(mmu.read(0xC003), 0x85);
}

#[test]
fn store_then_load_through_hl() {
    // LD HL, 0xC010; LD B, 0x99; LD [HL], B; LD C, [HL]; LD A, C; LD [C000], A
    let (mut cpu, mut mmu) = machine(
        &[],
        &[0x21, 0x10, 0xC0, 0x06, 0x99, 0x70, 0x4E, 0x79, 0xEA, 0x00, 0xC0],
    );
    run(&mut cpu, &mut mmu, 6);
    assert_eq!(mmu.read(0xC000), 0x99);
}

#[test]
fn hl_increment_and_decrement_loads() {
    // LD HL, 0xC000; LD A, 0x01; LD [HL+], A; LD A, 0x02; LD [HL-], A; LD A, [HL+]; LD [C010], A
    let (mut cpu, mut mmu) = machine(
        &[],
        &[0x21, 0x00, 0xC0, 0x3E, 0x01, 0x22, 0x3E, 0x02, 0x32, 0x2A, 0xEA, 0x10, 0xC0],
    );
    run(&mut cpu, &mut mmu, 7);
    assert_eq!(mmu.read(0xC000), 0x01);
    assert_eq!(mmu.read(0xC001), 0x02);
    assert_eq!(mmu.read(0xC010), 0x01);
}

#[test]
fn add_hl_and_stack_pointer_arithmetic() {
    // LD HL, 0x0FFF; LD BC, 0x0001; ADD HL, BC; LD SP, 0xD000; PUSH HL
    let (mut cpu, mut mmu) = machine(
        &[],
        &[0x21, 0xFF, 0x0F, 0x01, 0x01, 0x00, 0x09, 0x31, 0x00, 0xD0, 0xE5],
    );
    run(&mut cpu, &mut mmu, 5);
    assert_eq!(mmu.read_word(0xCFFE), 0x1000);
    // LD SP, 0xD000; ADD SP, -2; LD HL, SP + 1; PUSH HL
    let (mut cpu, mut mmu) = machine(&[], &[0x31, 0x00, 0xD0, 0xE8, 0xFE, 0xF8, 0x01, 0xE5]);
    run(&mut cpu, &mut mmu, 4);
    assert_eq!(mmu.read_word(0xCFFC), 0xCFFF);
}

#[test]
fn high_page_loads() {
    // LD A, 0x5C; LDH [0x85], A; LD C, 0x86; LDH [C], A; LDH A, [0x85]; LD [C000], A
    let (mut cpu, mut mmu) = machine(
        &[],
        &[0x3E, 0x5C, 0xE0, 0x85, 0x0E, 0x86, 0xE2, 0xF0, 0x85, 0xEA, 0x00, 0xC0],
    );
    run(&mut cpu, &mut mmu, 6);
    assert_eq!(mmu.read(0xFF85), 0x5C);
    assert_eq!(mmu.read(0xFF86), 0x5C);
    assert_eq!(mmu.read(0xC000), 0x5C);
}

#[test]
fn and_immediate_consumes_its_operand() {
    // LD A, 0x41; AND 0xFF; LDH [0x01], A
    let (mut cpu, mut mmu) = machine(&[], &[0x3E, 0x41, 0xE6, 0xFF, 0xE0, 0x01]);
    run(&mut cpu, &mut mmu, 3);
    assert_eq!(mmu.sb().as_str(), "A");
    assert_eq!(mmu.read(0xFF01), 0x41);
}

#[test]
fn cp_immediate_consumes_its_operand() {
    // LD A, 0x10; CP 0x10; PUSH AF
    let (mut cpu, mut mmu) = machine(&[], &[0x3E, 0x10, 0xFE, 0x10, 0xF5]);
    run(&mut cpu, &mut mmu, 3);
    assert_eq!(mmu.read(0xFFFD), 0x10);
    assert_eq!(mmu.read(0xFFFC), 0xC0);
}

#[test]
fn daa_adjusts_after_addition_and_subtraction() {
    // LD A, 0x00; SCF; DAA; LD [C000], A
    let (mut cpu, mut mmu) = machine(&[], &[0x3E, 0x00, 0x37, 0x27, 0xEA, 0x00, 0xC0]);
    run(&mut cpu, &mut mmu, 4);
    assert_eq!(mmu.read(0xC000), 0x60);
    // LD A, 0x15; ADD A, 0x27; DAA; LD [C000], A
    let (mut cpu, mut mmu) = machine(&[], &[0x3E, 0x15, 0xC6, 0x27, 0x27, 0xEA, 0x00, 0xC0]);
    run(&mut cpu, &mut mmu, 4);
    assert_eq!(mmu.read(0xC000), 0x42);
    // LD A, 0x42; SUB A, 0x15; DAA; PUSH AF
    let (mut cpu, mut mmu) = machine(&[], &[0x3E, 0x42, 0xD6, 0x15, 0x27, 0xF5]);
    run(&mut cpu, &mut mmu, 4);
    assert_eq!(mmu.read(0xFFFD), 0x27);
    assert_eq!(mmu.read(0xFFFC), 0x40);
    // LD A, 0x99; ADD A, 0x01; DAA; PUSH AF: 0x00 with Z and C
    let (mut cpu, mut mmu) = machine(&[], &[0x3E, 0x99, 0xC6, 0x01, 0x27, 0xF5]);
    run(&mut cpu, &mut mmu, 4);
    assert_eq!(mmu.read(0xFFFD), 0x00);
    assert_eq!(mmu.read(0xFFFC), 0x90);
}

#[test]
fn stack_pointer_offsets_take_flags_from_the_low_byte() {
    // LD SP, 0x000F; LD HL, SP + 1; LD SP, 0xFFFE; PUSH AF
    let (mut cpu, mut mmu) = machine(&[], &[0x31, 0x0F, 0x00, 0xF8, 0x01, 0x31, 0xFE, 0xFF, 0xF5]);
    run(&mut cpu, &mut mmu, 4);
    assert_eq!(mmu.read(0xFFFC), 0x20);
    // LD SP, 0x00FF; ADD SP, 1; LD SP, 0xFFFE; PUSH AF: H and C
    let (mut cpu, mut mmu) = machine(&[], &[0x31, 0xFF, 0x00, 0xE8, 0x01, 0x31, 0xFE, 0xFF, 0xF5]);
    run(&mut cpu, &mut mmu, 4);
    assert_eq!(mmu.read(0xFFFC), 0x30);
    // LD SP, 0xD000; ADD SP, -1 (0xFF): no carry out of the low nibble or the low byte
    let (mut cpu, mut mmu) = machine(&[], &[0x31, 0x00, 0xD0, 0xE8, 0xFF, 0xF5]);
    run(&mut cpu, &mut mmu, 3);
    assert_eq!(mmu.read(0xCFFD), 0x00);
    assert_eq!(mmu.read_word(0xCFFD), 0x0000);
}

#[test]
fn bit_tests_set_zero_from_the_bit() {
    // LD A, 0x80; BIT 7, A; PUSH AF
    let (mut cpu, mut mmu) = machine(&[], &[0x3E, 0x80, 0xCB, 0x7F, 0xF5]);
    run(&mut cpu, &mut mmu, 3);
    assert_eq!(mmu.read(0xFFFC), 0x20);
    assert_eq!(mmu.read(0xFFFD), 0x80);
    // LD A, 0x80; SCF; BIT 6, A; PUSH AF: Z set, C kept
    let (mut cpu, mut mmu) = machine(&[], &[0x3E, 0x80, 0x37, 0xCB, 0x77, 0xF5]);
    run(&mut cpu, &mut mmu, 4);
    assert_eq!(mmu.read(0xFFFC), 0xB0);
}

#[test]
fn prefixed_shifts_set_and_reset() {
    // LD A, 0xF1; SWAP A; LD [C000], A; SET 0, B; RES 7, A; LD [C001], A; LD A, B; LD [C002], A
    let (mut cpu, mut mmu) = machine(
        &[],
        &[
            0x3E, 0xF1, 0xCB, 0x37, 0xEA, 0x00, 0xC0, 0xCB, 0xC0, 0xCB, 0xBF, 0xEA, 0x01, 0xC0,
            0x78, 0xEA, 0x02, 0xC0,
        ],
    );
    run(&mut cpu, &mut mmu, 8);
    assert_eq!(mmu.read(0xC000), 0x1F);
    assert_eq!(mmu.read(0xC001), 0x1F);
    assert_eq!(mmu.read(0xC002), 0x01);
    // LD HL, 0xC010; LD [HL], 0x81; RLC [HL]; SRA [HL]; PUSH AF
    let (mut cpu, mut mmu) = machine(
        &[],
        &[0x21, 0x10, 0xC0, 0x36, 0x81, 0xCB, 0x06, 0xCB, 0x2E, 0xF5],
    );
    run(&mut cpu, &mut mmu, 5);
    assert_eq!(mmu.read(0xC010), 0x01);
    assert_eq!(mmu.read(0xFFFC), 0x10);
    // LD A, 0x01; SRL A; RR A; PUSH AF: 0x80 with C clear
    let (mut cpu, mut mmu) = machine(&[], &[0x3E, 0x01, 0xCB, 0x3F, 0xCB, 0x1F, 0xF5]);
    run(&mut cpu, &mut mmu, 4);
    assert_eq!(mmu.read(0xFFFD), 0x80);
    assert_eq!(mmu.read(0xFFFC), 0x00);
}

#[test]
fn push_then_pop_into_another_pair() {
    // LD BC, 0x1234; PUSH BC; LD A, 0x55; POP DE; LD A, D; LD [C000], A; LD A, E; LD [C001], A
    let (mut cpu, mut mmu) = machine(
        &[],
        &[
            0x01, 0x34, 0x12, 0xC5, 0x3E, 0x55, 0xD1, 0x7A, 0xEA, 0x00, 0xC0, 0x7B, 0xEA, 0x01,
            0xC0,
        ],
    );
    run(&mut cpu, &mut mmu, 8);
    assert_eq!(mmu.read(0xC000), 0x12);
    assert_eq!(mmu.read(0xC001), 0x34);
}

#[test]
fn can_step_on_a_fresh_machine() {
    let (cpu, mmu) = machine(&[], &[0x00]);
    assert!(cpu.can_step(&mmu));
}

#[test]
fn undefined_opcode_stalls() {
    let (mut cpu, mut mmu) = machine(&[], &[0xD3, 0x3E, 0x11, 0xEA, 0x00, 0xC0]);
    run(&mut cpu, &mut mmu, 5);
    assert_eq!(mmu.read(0xC000), 0x00);
}

#[test]
fn serial_output_spells_passed() {
    let mut program = Vec::new();
    for ch in b"Passed" {
        program.extend_from_slice(&[0x3E, *ch, 0xE0, 0x01]);
    }
    let (mut cpu, mut mmu) = machine(&[], &program);
    run(&mut cpu, &mut mmu, 12);
    assert!(mmu.sb().contains("Passed"));
    assert!(!mmu.sb().contains("Failed"));
}
