use vstd::prelude::*;

verus! {

/// Abstract state of the timer: the 16-bit system counter whose high byte is DIV,
/// the counter TIMA, its reload value TMA, and the control register TAC.
pub struct TimerView {
    pub system_counter: u16,
    pub tima: u8,
    pub tma: u8,
    pub tac: u8,
}

/// Bit 2 of TAC enables TIMA.
pub open spec fn timer_enabled(tac: u8) -> bool {
    (tac / 4) % 2 == 1
}

/// The power of two whose bit in the system counter clocks TIMA, by bits 0..1 of TAC:
/// bit 10, 4, 6 or 8.
pub open spec fn clock_bit(tac: u8) -> int {
    if tac % 4 == 0 {
        1024
    } else if tac % 4 == 1 {
        16
    } else if tac % 4 == 2 {
        64
    } else {
        256
    }
}

/// Whether the bit `bit` of `x` is set.
pub open spec fn bit_set(x: u16, bit: int) -> bool {
    (x as int / bit) % 2 == 1
}

/// The timer after `cycles` clock cycles: the system counter advances modulo 2^16; when TIMA is
/// enabled and the selected bit of the counter falls from 1 to 0, TIMA goes up by one, modulo
/// 2^8; and whenever TIMA is enabled and is 0 at the end, it is reloaded from TMA.
pub open spec fn after_cycles(t: TimerView, cycles: u8) -> TimerView {
    let counter = ((t.system_counter + cycles) % 0x10000) as u16;
    if timer_enabled(t.tac) {
        let bit = clock_bit(t.tac);
        let falling = bit_set(t.system_counter, bit) && !bit_set(counter, bit);
        let tima1: u8 = if falling {
            ((t.tima + 1) % 256) as u8
        } else {
            t.tima
        };
        TimerView {
            system_counter: counter,
            tima: if tima1 == 0 {
                t.tma
            } else {
                tima1
            },
            ..t
        }
    } else {
        TimerView { system_counter: counter, ..t }
    }
}

proof fn lemma_timer_bits(x: u16, tac: u8)
    ensures
        ((x & 0x0400) == 1024) == bit_set(x, 1024),
        ((x & 0x0400) == 0) == !bit_set(x, 1024),
        ((x & 0x0010) == 16) == bit_set(x, 16),
        ((x & 0x0010) == 0) == !bit_set(x, 16),
        ((x & 0x0040) == 64) == bit_set(x, 64),
        ((x & 0x0040) == 0) == !bit_set(x, 64),
        ((x & 0x0100) == 256) == bit_set(x, 256),
        ((x & 0x0100) == 0) == !bit_set(x, 256),
        (tac & 0x04 == 4) == timer_enabled(tac),
        tac & 0x03 == tac % 4,
        (x >> 8u16) as u8 == x / 256,
        x & 0x00FF == x % 256,
{
    assert(((x & 0x0400) == 1024) == ((x / 1024) % 2 == 1)) by (bit_vector);
    assert(((x & 0x0400) == 0) == !((x / 1024) % 2 == 1)) by (bit_vector);
    assert(((x & 0x0010) == 16) == ((x / 16) % 2 == 1)) by (bit_vector);
    assert(((x & 0x0010) == 0) == !((x / 16) % 2 == 1)) by (bit_vector);
    assert(((x & 0x0040) == 64) == ((x / 64) % 2 == 1)) by (bit_vector);
    assert(((x & 0x0040) == 0) == !((x / 64) % 2 == 1)) by (bit_vector);
    assert(((x & 0x0100) == 256) == ((x / 256) % 2 == 1)) by (bit_vector);
    assert(((x & 0x0100) == 0) == !((x / 256) % 2 == 1)) by (bit_vector);
    assert((tac & 0x04 == 4) == ((tac / 4) % 2 == 1)) by (bit_vector);
    assert(tac & 0x03 == tac % 4) by (bit_vector);
    assert((x >> 8u16) as u8 == x / 256) by (bit_vector);
    assert(x & 0x00FF == x % 256) by (bit_vector);
}

/// The timer after a write to DIV: the high byte of the system counter is cleared.
pub open spec fn after_write_div(t: TimerView) -> TimerView {
    TimerView { system_counter: (t.system_counter % 256) as u16, ..t }
}

/// After a write to DIV, DIV (the counter's high byte) reads 0, and the low byte of the
/// counter, TIMA, TMA and TAC are kept.
pub proof fn lemma_write_div_clears_div(t: TimerView)
    ensures
        after_write_div(t).system_counter / 256 == 0,
        after_write_div(t).system_counter % 256 == t.system_counter % 256,
        after_write_div(t).tima == t.tima,
        after_write_div(t).tma == t.tma,
        after_write_div(t).tac == t.tac,
{
}

/// The system counter advances by the cycles, modulo 2^16; TMA and TAC never change;
/// with TIMA disabled, TIMA does not change either.
pub proof fn lemma_after_cycles_frame(t: TimerView, cycles: u8)
    ensures
        after_cycles(t, cycles).system_counter == (t.system_counter + cycles) % 0x10000,
        after_cycles(t, cycles).tma == t.tma,
        after_cycles(t, cycles).tac == t.tac,
        !timer_enabled(t.tac) ==> after_cycles(t, cycles).tima == t.tima,
{
}

/// The clock selects of TAC: with TIMA enabled (TAC bit 2) and TIMA neither 0 nor 0xFF, TIMA
/// goes up by one exactly when the selected bit of the system counter falls from 1 to 0 between
/// the old count and the new one: bit 10 for select 0, bit 4 for 1, bit 6 for 2, bit 8 for 3.
/// Otherwise TIMA stays.
pub proof fn lemma_clock_selects(t: TimerView, n: u8)
    requires
        (t.tac / 4) % 2 == 1,
        0 < t.tima < 0xFF,
    ensures
        ({
            let old_count = t.system_counter as int;
            let new_count = (t.system_counter + n) % 0x10000;
            let bit: int = if t.tac % 4 == 0 {
                1024
            } else if t.tac % 4 == 1 {
                16
            } else if t.tac % 4 == 2 {
                64
            } else {
                256
            };
            let falls = (old_count / bit) % 2 == 1 && (new_count / bit) % 2 == 0;
            &&& falls ==> after_cycles(t, n).tima == t.tima + 1
            &&& !falls ==> after_cycles(t, n).tima == t.tima
        }),
        t.tac % 4 == 3 ==> (after_cycles(t, n).tima == t.tima + 1 <==> ((t.system_counter / 256)
            % 2 == 1 && (((t.system_counter + n) % 0x10000) / 256) % 2 == 0)),
        t.tac % 4 == 0 ==> (after_cycles(t, n).tima == t.tima + 1 <==> ((t.system_counter / 1024)
            % 2 == 1 && (((t.system_counter + n) % 0x10000) / 1024) % 2 == 0)),
        t.tac % 4 == 1 ==> (after_cycles(t, n).tima == t.tima + 1 <==> ((t.system_counter / 16)
            % 2 == 1 && (((t.system_counter + n) % 0x10000) / 16) % 2 == 0)),
        t.tac % 4 == 2 ==> (after_cycles(t, n).tima == t.tima + 1 <==> ((t.system_counter / 64)
            % 2 == 1 && (((t.system_counter + n) % 0x10000) / 64) % 2 == 0)),
{
}

/// With TIMA enabled, a step of TIMA past 0xFF reloads it from TMA.
pub proof fn lemma_overflow_reloads(t: TimerView, n: u8)
    requires
        (t.tac / 4) % 2 == 1,
        t.tima == 0xFF,
        after_cycles(t, n).tima != t.tima,
    ensures
        after_cycles(t, n).tima == t.tma,
{
}

/// With TIMA enabled, one call moves TIMA on by at most one: it stays, goes up by one,
/// or, when it wraps past 0xFF, is reloaded from TMA.
pub proof fn lemma_tima_steps_by_one(t: TimerView, cycles: u8)
    requires
        timer_enabled(t.tac),
        t.tima != 0,
    ensures
        after_cycles(t, cycles).tima == t.tima || after_cycles(t, cycles).tima == t.tima + 1
            || (t.tima == 0xFF && after_cycles(t, cycles).tima == t.tma),
{
}

pub struct Timer {
    system_counter: u16,
    tima: u8,
    tma: u8,
    tac: u8,
}

impl View for Timer {
    type V = TimerView;

    closed spec fn view(&self) -> TimerView {
        TimerView {
            system_counter: self.system_counter,
            tima: self.tima,
            tma: self.tma,
            tac: self.tac,
        }
    }
}

impl Timer {
    pub fn new() -> (t: Self)
        ensures
            t@ == (TimerView { system_counter: 0, tima: 0, tma: 0, tac: 0 }),
    {
        Timer { system_counter: 0, tima: 0, tma: 0, tac: 0 }
    }

    /// Advances the timer by `cycles` clock cycles.
    pub fn add_cycles(&mut self, cycles: u8)
        ensures
            final(self)@ == after_cycles(old(self)@, cycles),
    {
        let old_system_counter = self.system_counter;
        self.system_counter = self.system_counter.wrapping_add(cycles as u16);
        proof {
            lemma_timer_bits(old_system_counter, self.tac);
            lemma_timer_bits(self.system_counter, self.tac);
        }
        let timer_status = self.tac & 0x04 == 4;
        let timer_inc = self.tac & 0x03;

        if timer_status {
            match timer_inc {
                0x00 => {
                    if ((old_system_counter & 0x0400) == 1024) && ((self.system_counter & 0x0400)
                        == 0) {
                        self.tima = self.tima.wrapping_add(1);
                    }
                },
                0x01 => {
                    if ((old_system_counter & 0x0010) == 16) && ((self.system_counter & 0x0010)
                        == 0) {
                        self.tima = self.tima.wrapping_add(1);
                    }
                },
                0x02 => {
                    if ((old_system_counter & 0x0040) == 64) && ((self.system_counter & 0x0040)
                        == 0) {
                        self.tima = self.tima.wrapping_add(1);
                    }
                },
                _ => {
                    // the selector is two bits wide: this is 0x03
                    if ((old_system_counter & 0x0100) == 256) && ((self.system_counter & 0x0100)
                        == 0) {
                        self.tima = self.tima.wrapping_add(1);
                    }
                },
            }
            if self.tima == 0 {
                self.tima = self.tma;
            }
        }
    }

    /// DIV, the high byte of the system counter.
    pub fn read_div(&self) -> (r: u8)
        ensures
            r == self@.system_counter / 256,
    {
        proof {
            lemma_timer_bits(self.system_counter, self.tac);
        }
        (self.system_counter >> 8) as u8
    }

    /// A write to DIV clears the high byte of the system counter.
    pub fn write_div(&mut self)
        ensures
            final(self)@ == after_write_div(old(self)@),
    {
        proof {
            lemma_timer_bits(self.system_counter, self.tac);
        }
        self.system_counter = self.system_counter & 0x00FF;
    }

    pub fn write_tima(&mut self, tima: u8)
        ensures
            final(self)@ == (TimerView { tima: tima, ..old(self)@ }),
    {
        self.tima = tima;
    }

    pub fn read_time(&self) -> (r: u8)
        ensures
            r == self@.tima,
    {
        self.tima
    }

    pub fn write_tma(&mut self, tma: u8)
        ensures
            final(self)@ == (TimerView { tma: tma, ..old(self)@ }),
    {
        self.tma = tma;
    }

    pub fn read_tma(&self) -> (r: u8)
        ensures
            r == self@.tma,
    {
        self.tma
    }

    pub fn write_tac(&mut self, tac: u8)
        ensures
            final(self)@ == (TimerView { tac: tac, ..old(self)@ }),
    {
        self.tac = tac;
    }

    pub fn read_tac(&self) -> (r: u8)
        ensures
            r == self@.tac,
    {
        self.tac
    }
}

} // verus!
