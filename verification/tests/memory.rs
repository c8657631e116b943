use gameboy::mmu::Mmu;

#[test]
fn new_memory_reads_zero_and_open_bus() {
    let mmu = Mmu::new();
    assert_eq!(mmu.read(0xC000), 0);
    assert_eq!(mmu.read(0x8000), 0);
    assert_eq!(mmu.read(0xFF80), 0);
    assert_eq!(mmu.read(0xFFFF), 0);
    // no ROM loaded
    assert_eq!(mmu.read(0x0000), 0xFF);
    assert_eq!(mmu.read(0x7FFF), 0xFF);
    assert_eq!(mmu.sb().as_str(), "");
}

#[test]
fn ram_read_after_write() {
    let mut mmu = Mmu::new();
    let cases: [(u16, u8); 7] = [
        (0x8000, 1),
        (0x9FFF, 2),
        (0xC000, 3),
        (0xDFFF, 4),
        (0xFE00, 5),
        (0xFF80, 6),
        (0xFFFE, 7),
    ];
    for (addr, value) in cases {
        mmu.write(addr, value);
        assert_eq!(mmu.read(addr), value);
    }
    mmu.write(0xFFFF, 0x1F);
    assert_eq!(mmu.read(0xFFFF), 0x1F);
    mmu.write(0xFF40, 0x91);
    assert_eq!(mmu.read(0xFF40), 0x91);
}

#[test]
fn write_leaves_other_addresses() {
    let mut mmu = Mmu::new();
    mmu.write(0xC000, 0xAA);
    mmu.write(0xC001, 0xBB);
    assert_eq!(mmu.read(0xC000), 0xAA);
    assert_eq!(mmu.read(0xC001), 0xBB);
    assert_eq!(mmu.read(0xC002), 0);
}

#[test]
fn echo_ram_mirrors_work_ram() {
    let mut mmu = Mmu::new();
    mmu.write(0xC123, 0x5A);
    assert_eq!(mmu.read(0xE123), 0x5A);
    mmu.write(0xFDFF, 0x77);
    assert_eq!(mmu.read(0xDDFF), 0x77);
}

#[test]
fn rom_and_unmapped_writes_are_ignored() {
    let mut mmu = Mmu::new();
    mmu.load_bytes(&[1, 2, 3]);
    mmu.write(0x0001, 0x99);
    assert_eq!(mmu.read(0x0001), 2);
    mmu.write(0xA000, 0x12);
    assert_eq!(mmu.read(0xA000), 0xFF);
    mmu.write(0xFEA0, 0x12);
    assert_eq!(mmu.read(0xFEA0), 0xFF);
    assert_eq!(mmu.read(0xBFFF), 0xFF);
}

#[test]
fn loaded_rom_reads_back_and_ends_in_open_bus() {
    let mut mmu = Mmu::new();
    mmu.load_bytes(&[0x10, 0x20, 0x30]);
    assert_eq!(mmu.read(0x0000), 0x10);
    assert_eq!(mmu.read(0x0002), 0x30);
    assert_eq!(mmu.read(0x0003), 0xFF);
}

#[test]
fn divider_write_resets() {
    let mut mmu = Mmu::new();
    mmu.write(0xFF04, 0x55);
    assert_eq!(mmu.read(0xFF04), 0);
}

#[test]
fn divider_counts_added_cycles() {
    let mut mmu = Mmu::new();
    mmu.div_reg_add(17);
    assert_eq!(mmu.read(0xFF04), 17);
    mmu.div_reg_add(250);
    assert_eq!(mmu.read(0xFF04), 11);
    assert_eq!(mmu.read(0xFF05), 0);
    assert_eq!(mmu.sb().as_str(), "");
    mmu.write(0xFF04, 3);
    assert_eq!(mmu.read(0xFF04), 0);
}

#[test]
fn serial_register_collects_characters() {
    let mut mmu = Mmu::new();
    mmu.write(0xFF01, b'O');
    mmu.write(0xFF01, b'k');
    mmu.write(0xFF02, b'x');
    assert_eq!(mmu.sb().as_str(), "Ok");
    assert_eq!(mmu.read(0xFF01), b'k');
}

#[test]
fn word_round_trip() {
    let mut mmu = Mmu::new();
    mmu.write_word(0xC010, 0xBEEF);
    assert_eq!(mmu.read(0xC010), 0xEF);
    assert_eq!(mmu.read(0xC011), 0xBE);
    assert_eq!(mmu.read_word(0xC010), 0xBEEF);
    assert_eq!(mmu.read_word_pair(0xC010), (0xBE, 0xEF));
}

#[test]
fn word_pair_round_trip() {
    let mut mmu = Mmu::new();
    mmu.write_word_pair(0xFF90, 0x12, 0x34);
    assert_eq!(mmu.read_word_pair(0xFF90), (0x34, 0x12));
    assert_eq!(mmu.read_word(0xFF90), 0x3412);
}
