use gameboy::timer::Timer;

#[test]
fn divider_counts_cycles() {
    let mut t = Timer::new();
    assert_eq!(t.read_div(), 0);
    t.add_cycles(255);
    assert_eq!(t.read_div(), 0);
    t.add_cycles(1);
    assert_eq!(t.read_div(), 1);
    for _ in 0..3 {
        t.add_cycles(200);
    }
    assert_eq!(t.read_div(), 3);
    t.write_div();
    assert_eq!(t.read_div(), 0);
}

#[test]
fn divider_wraps() {
    let mut t = Timer::new();
    for _ in 0..256 {
        t.add_cycles(255);
        t.add_cycles(1);
    }
    assert_eq!(t.read_div(), 0);
}

#[test]
fn tima_counts_falling_edges() {
    let mut t = Timer::new();
    t.write_tac(0x05);
    assert_eq!(t.read_tac(), 0x05);
    t.add_cycles(16);
    assert_eq!(t.read_time(), 0);
    t.add_cycles(16);
    assert_eq!(t.read_time(), 1);
    t.add_cycles(16);
    t.add_cycles(16);
    assert_eq!(t.read_time(), 2);
}

#[test]
fn tima_clock_selects() {
    let mut t = Timer::new();
    t.write_tac(0x04);
    for _ in 0..8 {
        t.add_cycles(255);
        t.add_cycles(1);
    }
    assert_eq!(t.read_time(), 1);
    let mut t = Timer::new();
    t.write_tac(0x06);
    t.add_cycles(64);
    t.add_cycles(64);
    assert_eq!(t.read_time(), 1);
    let mut t = Timer::new();
    t.write_tac(0x07);
    t.add_cycles(255);
    t.add_cycles(255);
    t.add_cycles(2);
    assert_eq!(t.read_time(), 1);
}

#[test]
fn tima_disabled_does_not_count() {
    let mut t = Timer::new();
    t.write_tac(0x01);
    for _ in 0..10 {
        t.add_cycles(16);
    }
    assert_eq!(t.read_time(), 0);
}

#[test]
fn tima_overflow_reloads_tma() {
    let mut t = Timer::new();
    t.write_tac(0x05);
    t.write_tma(0x42);
    assert_eq!(t.read_tma(), 0x42);
    t.write_tima(0xFF);
    t.add_cycles(16);
    assert_eq!(t.read_time(), 0xFF);
    t.add_cycles(16);
    assert_eq!(t.read_time(), 0x42);
}

#[test]
fn tima_zero_is_reloaded_while_enabled() {
    let mut t = Timer::new();
    t.write_tma(7);
    t.write_tac(0x05);
    t.add_cycles(1);
    assert_eq!(t.read_time(), 7);
}
