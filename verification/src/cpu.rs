use vstd::prelude::*;

use crate::bits::{
    lemma_flag_byte, lemma_join_bytes, lemma_low_bits_u16, lemma_low_nibble, lemma_low_twelve_bits, lemma_shifts, lemma_opcode_fields,
    lemma_pack_flags, lemma_rotations, lemma_sign_extend, lemma_split_word, lemma_wrap16, lemma_wrap8,
};
use crate::mmu::Mmu;
use crate::semantics::{
    add16_flags, addresses_in_range, alu, bit_mask, cycles_of, shift, store_operand, fetch, imm8, jr_target, operand, sext16, step_ok,
    step_spec, CpuView,
};

verus! {

#[derive(Copy, Clone)]
enum Register {
    A,
    B,
    C,
    D,
    E,
    H,
    L,
}

impl Register {
    /// The operand index of the register, as opcodes encode it.
    spec fn index(self) -> int {
        match self {
            Register::B => 0,
            Register::C => 1,
            Register::D => 2,
            Register::E => 3,
            Register::H => 4,
            Register::L => 5,
            Register::A => 7,
        }
    }
}

/// The single-bit mask of bit `y`.
fn mask_of(y: u8) -> (m: u8)
    requires
        y < 8,
    ensures
        m == bit_mask(y as int),
{
    if y == 0 {
        1
    } else if y == 1 {
        2
    } else if y == 2 {
        4
    } else if y == 3 {
        8
    } else if y == 4 {
        16
    } else if y == 5 {
        32
    } else if y == 6 {
        64
    } else {
        128
    }
}

/// The register with operand index `i` (not 6, which names the byte at HL).
fn register_of(i: u8) -> (r: Register)
    requires
        i < 8,
        i != 6,
    ensures
        r.index() == i,
{
    if i == 0 {
        Register::B
    } else if i == 1 {
        Register::C
    } else if i == 2 {
        Register::D
    } else if i == 3 {
        Register::E
    } else if i == 4 {
        Register::H
    } else if i == 5 {
        Register::L
    } else {
        Register::A
    }
}

pub struct Cpu {
    a: u8,
    b: u8,
    c: u8,
    d: u8,
    e: u8,
    h: u8,
    l: u8,
    /// The last operation gave zero, or a comparison found its operands equal.
    flag_z: bool,
    /// The last operation was a subtraction.
    flag_n: bool,
    /// The last operation carried out of the low nibble.
    flag_h: bool,
    /// The last operation carried out of the top bit.
    flag_c: bool,
    /// The address of the next instruction.
    pc: u16,
    /// The top of the stack.
    sp: u16,
    /// Interrupt master enable.
    ime: bool,
    cycles: u64,
}

impl View for Cpu {
    type V = CpuView;

    closed spec fn view(&self) -> CpuView {
        CpuView {
            a: self.a,
            b: self.b,
            c: self.c,
            d: self.d,
            e: self.e,
            h: self.h,
            l: self.l,
            flag_z: self.flag_z,
            flag_n: self.flag_n,
            flag_h: self.flag_h,
            flag_c: self.flag_c,
            pc: self.pc,
            sp: self.sp,
            ime: self.ime,
            cycles: self.cycles,
        }
    }
}

impl Cpu {
    /// The state after power-on: registers and flags clear, execution at 0x0100,
    /// the stack at 0xFFFE.
    pub fn new() -> (cpu: Self)
        ensures
            cpu@ == (CpuView {
                a: 0,
                b: 0,
                c: 0,
                d: 0,
                e: 0,
                h: 0,
                l: 0,
                flag_z: false,
                flag_n: false,
                flag_h: false,
                flag_c: false,
                pc: 0x0100,
                sp: 0xFFFE,
                ime: false,
                cycles: 0,
            }),
    {
        Cpu {
            a: 0,
            b: 0,
            c: 0,
            d: 0,
            e: 0,
            h: 0,
            l: 0,
            flag_z: false,
            flag_n: false,
            flag_h: false,
            flag_c: false,
            pc: 0x0100,
            sp: 0xFFFE,
            ime: false,
            cycles: 0,
        }
    }

    fn get_register(&self, x: Register) -> (r: u8)
        ensures
            r == self@.reg(x.index()),
    {
        match x {
            Register::A => return self.a,
            Register::B => return self.b,
            Register::C => return self.c,
            Register::D => return self.d,
            Register::E => return self.e,
            Register::H => return self.h,
            Register::L => return self.l,
        }
    }

    fn get_pair(&self, high_reg: Register, low_reg: Register) -> (r: u16)
        ensures
            r == self@.reg(high_reg.index()) * 256 + self@.reg(low_reg.index()),
    {
        let high_byte: u8;
        let low_byte: u8;

        match high_reg {
            Register::A => high_byte = self.a,
            Register::B => high_byte = self.b,
            Register::C => high_byte = self.c,
            Register::D => high_byte = self.d,
            Register::E => high_byte = self.e,
            Register::H => high_byte = self.h,
            Register::L => high_byte = self.l,
        }

        match low_reg {
            Register::A => low_byte = self.a,
            Register::B => low_byte = self.b,
            Register::C => low_byte = self.c,
            Register::D => low_byte = self.d,
            Register::E => low_byte = self.e,
            Register::H => low_byte = self.h,
            Register::L => low_byte = self.l,
        }

        proof {
            lemma_join_bytes(high_byte, low_byte);
        }
        return (high_byte as u16) << 8 | low_byte as u16;
    }

    fn set_pair(&mut self, high_reg: Register, low_reg: Register, value: u16)
        ensures
            final(self)@ == old(self)@.set_reg(high_reg.index(), (value / 256) as u8).set_reg(
                low_reg.index(),
                (value % 256) as u8,
            ),
    {
        proof {
            lemma_split_word(value);
        }
        let high_value: u8 = (value >> 8) as u8;
        let low_value: u8 = value as u8;

        match high_reg {
            Register::A => self.a = high_value,
            Register::B => self.b = high_value,
            Register::C => self.c = high_value,
            Register::D => self.d = high_value,
            Register::E => self.e = high_value,
            Register::H => self.h = high_value,
            Register::L => self.l = high_value,
        };

        match low_reg {
            Register::A => self.a = low_value,
            Register::B => self.b = low_value,
            Register::C => self.c = low_value,
            Register::D => self.d = low_value,
            Register::E => self.e = low_value,
            Register::H => self.h = low_value,
            Register::L => self.l = low_value,
        };
    }

    fn set_register(&mut self, reg: Register, value: u8)
        ensures
            final(self)@ == old(self)@.set_reg(reg.index(), value),
    {
        match reg {
            Register::A => self.a = value,
            Register::B => self.b = value,
            Register::C => self.c = value,
            Register::D => self.d = value,
            Register::E => self.e = value,
            Register::H => self.h = value,
            Register::L => self.l = value,
        }
    }

    fn inc(&mut self, reg: Register) -> (r: u8)
        ensures
            r == (old(self)@.reg(reg.index()) + 1) % 256,
            final(self)@ == old(self)@.set_reg(reg.index(), r).inc_flags(r),
    {
        let value = self.get_register(reg).wrapping_add(1);
        self.set_register(reg, value);

        self.flag_z = (value == 0x00);

        self.flag_n = false;

        proof {
            lemma_low_nibble(value);
        }
        self.flag_h = ((value & 0x0F) == 0);

        return value;
    }

    fn dec(&mut self, reg: Register) -> (r: u8)
        ensures
            r == (old(self)@.reg(reg.index()) + 255) % 256,
            final(self)@ == old(self)@.set_reg(reg.index(), r).dec_flags(r),
    {
        let value = self.get_register(reg).wrapping_sub(1);
        self.set_register(reg, value);

        self.flag_z = (value == 0x00);

        self.flag_n = true;

        proof {
            lemma_low_nibble(value);
        }
        self.flag_h = (value & 0x0F == 0x0F);

        return value;
    }

    fn add_a(&mut self, value: u8)
        ensures
            final(self)@ == alu(old(self)@, 0, value),
    {
        proof {
            lemma_low_nibble(self.a);
            lemma_low_nibble(value);
        }
        self.flag_h = ((self.a & 0x0F) + (value & 0x0F)) > 0x0F;
        self.flag_c = self.a as u16 + value as u16 > 0xFF;

        self.a = self.a.wrapping_add(value);

        self.flag_z = self.a == 0;

        self.flag_n = false;
    }

    fn adc_a(&mut self, value: u8)
        ensures
            final(self)@ == alu(old(self)@, 1, value),
    {
        proof {
            lemma_low_nibble(self.a);
            lemma_low_nibble(value);
        }
        self.flag_h = ((self.a & 0x0F) + (value & 0x0F) + self.flag_c as u8) > 0x0F;
        let new_flag_c = self.a as u16 + value as u16 + self.flag_c as u16 > 0xFF;

        self.a = self.a.wrapping_add(value).wrapping_add(self.flag_c as u8);

        self.flag_z = self.a == 0;

        self.flag_n = false;

        self.flag_c = new_flag_c;
    }

    fn sub_a(&mut self, value: u8)
        ensures
            final(self)@ == alu(old(self)@, 2, value),
    {
        proof {
            lemma_low_nibble(self.a);
            lemma_low_nibble(value);
        }
        self.flag_h = (self.a & 0x0F) < (value & 0x0F);
        self.flag_c = self.a < value;

        self.a = self.a.wrapping_sub(value);

        self.flag_z = self.a == 0;

        self.flag_n = true;
    }

    fn sbc_a(&mut self, value: u8)
        ensures
            final(self)@ == alu(old(self)@, 3, value),
    {
        proof {
            lemma_low_nibble(self.a);
            lemma_low_nibble(value);
        }
        proof {
            let t = (self.a - value + 256) % 256;
            lemma_wrap8(self.a - value + 256);
            lemma_wrap8(t - old(self)@.carry() + 256);
            assert((t - old(self)@.carry() + 256) % 256 == (self.a - value - old(self)@.carry()
                + 512) % 256);
        }
        self.flag_h = (self.a & 0x0F) < (value & 0x0F) + self.flag_c as u8;
        let new_flag_c = (self.a as u16) < (value as u16) + (self.flag_c as u16);

        self.a = self.a.wrapping_sub(value).wrapping_sub(self.flag_c as u8);

        self.flag_c = new_flag_c;

        self.flag_z = self.a == 0;

        self.flag_n = true;
    }

    fn and_a(&mut self, value: u8)
        ensures
            final(self)@ == alu(old(self)@, 4, value),
    {
        self.a = self.a & value;

        self.flag_z = self.a == 0;
        self.flag_n = false;
        self.flag_h = true;
        self.flag_c = false;
    }

    fn xor_a(&mut self, value: u8)
        ensures
            final(self)@ == alu(old(self)@, 5, value),
    {
        self.a = self.a ^ value;

        self.flag_z = self.a == 0;
        self.flag_n = false;
        self.flag_h = false;
        self.flag_c = false;
    }

    fn or_a(&mut self, value: u8)
        ensures
            final(self)@ == alu(old(self)@, 6, value),
    {
        self.a = self.a | value;

        self.flag_z = self.a == 0;
        self.flag_n = false;
        self.flag_h = false;
        self.flag_c = false;
    }

    fn cp_a(&mut self, value: u8)
        ensures
            final(self)@ == alu(old(self)@, 7, value),
    {
        proof {
            lemma_low_nibble(self.a);
            lemma_low_nibble(value);
        }
        self.flag_z = self.a == value;
        self.flag_n = true;
        self.flag_h = (self.a & 0x0F) < (value & 0x0f);
        self.flag_c = self.a < value;
    }

    /// The arithmetic or logic operation with index `kind` on A and `value`.
    fn alu_op(&mut self, kind: u8, value: u8)
        requires
            kind < 8,
        ensures
            final(self)@ == alu(old(self)@, kind as int, value),
    {
        if kind == 0 {
            self.add_a(value);
        } else if kind == 1 {
            self.adc_a(value);
        } else if kind == 2 {
            self.sub_a(value);
        } else if kind == 3 {
            self.sbc_a(value);
        } else if kind == 4 {
            self.and_a(value);
        } else if kind == 5 {
            self.xor_a(value);
        } else if kind == 6 {
            self.or_a(value);
        } else {
            self.cp_a(value);
        }
    }

    /// The 8-bit operand with index `r`: a register, or for 6 the byte at HL.
    fn read_operand(&self, mmu: &Mmu, r: u8) -> (v: u8)
        requires
            r < 8,
        ensures
            v == operand(self@, mmu@, r as int),
    {
        if r == 6 {
            let addr = self.get_pair(Register::H, Register::L);
            mmu.read(addr)
        } else {
            self.get_register(register_of(r))
        }
    }

    /// Whether the next instruction can run: its 16-bit address arithmetic stays in range and
    /// the cycle count stays below 2^64. This is exactly the condition that `step` requires.
    pub fn can_step(&self, mmu: &Mmu) -> (r: bool)
        ensures
            r == step_ok(self@, mmu@),
    {
        let opcode = mmu.read(self.pc);
        if !self.addresses_fit(mmu, opcode) {
            return false;
        }
        let cost = self.instruction_cycles(mmu, opcode);
        self.cycles <= u64::MAX - cost
    }

    /// The number of clock cycles that the instruction `opcode` takes from this state.
    #[verifier::rlimit(100)]
    fn instruction_cycles(&self, mmu: &Mmu, opcode: u8) -> (n: u64)
        requires
            opcode == fetch(self@, mmu@),
            addresses_in_range(self@, mmu@),
        ensures
            n == cycles_of(self@, mmu@),
    {
        proof {
            lemma_opcode_fields(opcode);
        }
        assert(0x40 <= opcode < 0x80 ==> (opcode / 8) % 8 == (opcode - 0x40) / 8);
        assert(opcode < 0x40 ==> (opcode / 8) % 8 == opcode / 8);
        let column = opcode & 7;
        if opcode >= 0x40 && opcode < 0x80 {
            if opcode == 0x76 || (opcode >> 3) & 7 == 6 {
                8
            } else {
                4
            }
        } else if opcode >= 0x80 && opcode < 0xC0 {
            if column == 6 {
                8
            } else {
                4
            }
        } else if opcode < 0x40 {
            if column == 4 || column == 5 {
                if (opcode >> 3) & 7 == 6 {
                    12
                } else {
                    4
                }
            } else if column == 6 {
                if (opcode >> 3) & 7 == 6 {
                    12
                } else {
                    8
                }
            } else if opcode == 0x01 || opcode == 0x11 || opcode == 0x21 || opcode == 0x31
                || opcode == 0x18 {
                12
            } else if opcode == 0x08 {
                20
            } else if opcode == 0x00 || opcode == 0x03 || opcode == 0x07 || opcode == 0x0F
                || opcode == 0x17 || opcode == 0x1F || opcode == 0x10 || opcode == 0x27
                || opcode == 0x2F || opcode == 0x37 || opcode == 0x3F {
                4
            } else if opcode == 0x20 || opcode == 0x28 || opcode == 0x30 || opcode == 0x38 {
                if self.condition(opcode, 0x20) {
                    12
                } else {
                    8
                }
            } else {
                8
            }
        } else if column == 7 {
            16
        } else if column == 6 {
            if opcode == 0xE6 || opcode == 0xFE {
                4
            } else {
                8
            }
        } else if opcode == 0xCB {
            let cb = mmu.read(self.pc + 1);
            proof {
                lemma_opcode_fields(cb);
                lemma_shifts(cb);
            }
            if cb & 7 != 6 {
                8
            } else if cb >> 6 == 1 {
                12
            } else {
                16
            }
        } else if opcode == 0xC0 || opcode == 0xC8 || opcode == 0xD0 || opcode == 0xD8 {
            if self.condition(opcode, 0xC0) {
                20
            } else {
                8
            }
        } else if opcode == 0xC2 || opcode == 0xCA || opcode == 0xD2 || opcode == 0xDA {
            if self.condition(opcode, 0xC2) {
                16
            } else {
                12
            }
        } else if opcode == 0xC4 || opcode == 0xCC || opcode == 0xD4 || opcode == 0xDC {
            if self.condition(opcode, 0xC4) {
                24
            } else {
                12
            }
        } else if opcode == 0xCD {
            24
        } else if opcode == 0xC9 || opcode == 0xD9 || opcode == 0xC3 || opcode == 0xC5
            || opcode == 0xD5 || opcode == 0xE5 || opcode == 0xF5 || opcode == 0xE8
            || opcode == 0xEA || opcode == 0xFA {
            16
        } else if opcode == 0xC1 || opcode == 0xD1 || opcode == 0xE1 || opcode == 0xF1
            || opcode == 0xE0 || opcode == 0xF0 || opcode == 0xF8 {
            12
        } else if opcode == 0xE2 || opcode == 0xF2 || opcode == 0xF9 {
            8
        } else if opcode == 0xE9 || opcode == 0xF3 || opcode == 0xFB {
            4
        } else {
            0
        }
    }

    /// Whether the program counter can move on by `n` bytes.
    fn pc_room(&self, n: u16) -> (r: bool)
        ensures
            r == (self@.pc + n <= 0xFFFF),
    {
        self.pc <= 0xFFFF - n
    }

    /// Whether a relative jump from here, by the byte after the opcode, lands where the
    /// program counter can move on by two more bytes.
    fn relative_jump_fits(&self, mmu: &Mmu) -> (r: bool)
        ensures
            r == (self@.pc + 1 <= 0xFFFF && jr_target(self@.pc, imm8(self@, mmu@)) + 2 <= 0xFFFF),
    {
        if self.pc == 0xFFFF {
            return false;
        }
        let offset = mmu.read(self.pc + 1);
        proof {
            lemma_sign_extend(offset);
            lemma_wrap16(self.pc + sext16(offset));
        }
        let target = self.pc.wrapping_add((offset as i8) as u16);
        target <= 0xFFFD
    }

    /// Whether the 16-bit address arithmetic of the instruction `opcode` stays in range.
    #[verifier::rlimit(100)]
    fn addresses_fit(&self, mmu: &Mmu, opcode: u8) -> (r: bool)
        requires
            opcode == fetch(self@, mmu@),
        ensures
            r == addresses_in_range(self@, mmu@),
    {
        proof {
            lemma_opcode_fields(opcode);
        }
        let column = opcode & 7;
        if opcode < 0x40 {
            if column == 6 || opcode == 0x10 {
                self.pc_room(2)
            } else if opcode == 0x01 || opcode == 0x11 || opcode == 0x21 || opcode == 0x31 {
                self.pc_room(3)
            } else if opcode == 0x08 {
                self.pc_room(3) && mmu.read_word(self.pc + 1) < 0xFFFF
            } else if opcode == 0x18 {
                self.relative_jump_fits(mmu)
            } else if opcode == 0x20 || opcode == 0x28 || opcode == 0x30 || opcode == 0x38 {
                if self.condition(opcode, 0x20) {
                    self.relative_jump_fits(mmu)
                } else {
                    self.pc_room(2)
                }
            } else {
                self.pc_room(1)
            }
        } else if opcode < 0xC0 {
            self.pc_room(1)
        } else if column == 7 {
            self.sp >= 2 && self.pc_room(1)
        } else if column == 6 || opcode == 0xCB {
            self.pc_room(2)
        } else if opcode == 0xC0 || opcode == 0xC8 || opcode == 0xD0 || opcode == 0xD8 {
            if self.condition(opcode, 0xC0) {
                self.sp <= 0xFFFD
            } else {
                self.pc_room(1)
            }
        } else if opcode == 0xC9 || opcode == 0xD9 {
            self.sp <= 0xFFFD
        } else if opcode == 0xC1 || opcode == 0xD1 || opcode == 0xE1 || opcode == 0xF1 {
            self.sp <= 0xFFFD && self.pc_room(1)
        } else if opcode == 0xC2 || opcode == 0xCA || opcode == 0xD2 || opcode == 0xDA {
            if self.condition(opcode, 0xC2) {
                self.pc_room(2)
            } else {
                self.pc_room(3)
            }
        } else if opcode == 0xC3 {
            self.pc_room(2)
        } else if opcode == 0xC4 || opcode == 0xCC || opcode == 0xD4 || opcode == 0xDC {
            if self.condition(opcode, 0xC4) {
                self.sp >= 2 && self.pc_room(3)
            } else {
                self.pc_room(3)
            }
        } else if opcode == 0xCD {
            self.sp >= 2 && self.pc_room(3)
        } else if opcode == 0xC5 || opcode == 0xD5 || opcode == 0xE5 || opcode == 0xF5 {
            self.sp >= 2 && self.pc_room(1)
        } else if opcode == 0xE0 || opcode == 0xF0 || opcode == 0xE8 || opcode == 0xF8 {
            self.pc_room(2)
        } else if opcode == 0xEA || opcode == 0xFA {
            self.pc_room(3)
        } else if opcode == 0xE2 || opcode == 0xF2 || opcode == 0xF3 || opcode == 0xFB
            || opcode == 0xF9 {
            self.pc_room(1)
        } else {
            true
        }
    }

    /// Runs the instruction at the program counter.
    pub fn step(&mut self, mmu: &mut Mmu)
        requires
            step_ok(old(self)@, old(mmu)@),
        ensures
            (final(self)@, final(mmu)@) == step_spec(old(self)@, old(mmu)@),
    {
        let opcode = mmu.read(self.pc);

        if opcode >= 0x40 && opcode < 0x80 {
            self.step_load(mmu, opcode);
        } else if opcode >= 0x80 && opcode < 0xC0 {
            self.step_alu(mmu, opcode);
        } else if opcode < 0x40 {
            self.step_low(mmu, opcode);
        } else {
            self.step_high(mmu, opcode);
        }
    }

    /// 0x40..=0x7F: LD r, r' (LD r, [HL] takes 4 cycles, LD [HL], r 8) and HALT.
    fn step_load(&mut self, mmu: &mut Mmu, opcode: u8)
        requires
            opcode == fetch(old(self)@, old(mmu)@),
            0x40 <= opcode < 0x80,
            step_ok(old(self)@, old(mmu)@),
        ensures
            (final(self)@, final(mmu)@) == step_spec(old(self)@, old(mmu)@),
    {
        proof {
            lemma_opcode_fields(opcode);
        }
        if opcode == 0x76 {
            // HALT

            self.pc += 1;
            self.cycles += 8;
            return;
        }
        let dst = (opcode >> 3) & 7;
        let src = opcode & 7;
        if dst == 6 {
            // LD [HL], r

            let addr = self.get_pair(Register::H, Register::L);
            let value = self.get_register(register_of(src));
            mmu.write(addr, value);

            self.pc += 1;
            self.cycles += 8;
        } else {
            // LD r, r' and LD r, [HL]

            let value = self.read_operand(mmu, src);
            self.set_register(register_of(dst), value);

            self.pc += 1;
            self.cycles += 4;
        }
    }

    /// 0x80..=0xBF: ADD, ADC, SUB, SBC, AND, XOR, OR, CP with A.
    fn step_alu(&mut self, mmu: &mut Mmu, opcode: u8)
        requires
            opcode == fetch(old(self)@, old(mmu)@),
            0x80 <= opcode < 0xC0,
            step_ok(old(self)@, old(mmu)@),
        ensures
            (final(self)@, final(mmu)@) == step_spec(old(self)@, old(mmu)@),
    {
        proof {
            lemma_opcode_fields(opcode);
        }
        let kind = (opcode >> 3) & 7;
        let src = opcode & 7;
        let value = self.read_operand(mmu, src);
        self.alu_op(kind, value);

        self.pc += 1;
        if src == 6 {
            self.cycles += 8;
        } else {
            self.cycles += 4;
        }
    }

    /// 0x00..=0x3F.
    fn step_low(&mut self, mmu: &mut Mmu, opcode: u8)
        requires
            opcode == fetch(old(self)@, old(mmu)@),
            opcode < 0x40,
            step_ok(old(self)@, old(mmu)@),
        ensures
            (final(self)@, final(mmu)@) == step_spec(old(self)@, old(mmu)@),
    {
        let column = opcode & 7;
        proof {
            lemma_opcode_fields(opcode);
        }
        if column == 4 || column == 5 || column == 6 {
            self.step_inc_dec_load(mmu, opcode);
        } else if opcode < 0x10 {
            self.step_row_0(mmu, opcode);
        } else if opcode < 0x20 {
            self.step_row_1(mmu, opcode);
        } else if opcode < 0x30 {
            self.step_row_2(mmu, opcode);
        } else {
            self.step_row_3(mmu, opcode);
        }
    }

    /// 0xC0..=0xFF.
    fn step_high(&mut self, mmu: &mut Mmu, opcode: u8)
        requires
            opcode == fetch(old(self)@, old(mmu)@),
            opcode >= 0xC0,
            step_ok(old(self)@, old(mmu)@),
        ensures
            (final(self)@, final(mmu)@) == step_spec(old(self)@, old(mmu)@),
    {
        let column = opcode & 7;
        proof {
            lemma_opcode_fields(opcode);
        }
        if column == 7 {
            self.step_restart(mmu, opcode);
        } else if column == 6 {
            self.step_alu_immediate(mmu, opcode);
        } else if opcode < 0xD0 {
            self.step_row_c(mmu, opcode);
        } else if opcode < 0xE0 {
            self.step_row_d(mmu, opcode);
        } else if opcode < 0xF0 {
            self.step_row_e(mmu, opcode);
        } else {
            self.step_row_f(mmu, opcode);
        }
    }

    /// INC r, DEC r and LD r, n8, with [HL] in place of r for index 6.
    fn step_inc_dec_load(&mut self, mmu: &mut Mmu, opcode: u8)
        requires
            opcode == fetch(old(self)@, old(mmu)@),
            opcode < 0x40,
            opcode % 8 == 4 || opcode % 8 == 5 || opcode % 8 == 6,
            step_ok(old(self)@, old(mmu)@),
        ensures
            (final(self)@, final(mmu)@) == step_spec(old(self)@, old(mmu)@),
    {
        proof {
            lemma_opcode_fields(opcode);
        }
        let column = opcode & 7;
        if column == 4 {
            self.step_inc(mmu, opcode);
        } else if column == 5 {
            self.step_dec(mmu, opcode);
        } else {
            self.step_load_immediate(mmu, opcode);
        }
    }

    /// INC r and INC [HL].
    #[verifier::rlimit(100)]
    fn step_inc(&mut self, mmu: &mut Mmu, opcode: u8)
        requires
            opcode == fetch(old(self)@, old(mmu)@),
            opcode < 0x40,
            opcode % 8 == 4,
            step_ok(old(self)@, old(mmu)@),
        ensures
            (final(self)@, final(mmu)@) == step_spec(old(self)@, old(mmu)@),
    {
        proof {
            lemma_opcode_fields(opcode);
            assert((opcode / 8) % 8 == opcode / 8);
        }
        let r = (opcode >> 3) & 7;
        if r == 6 {
            // INC [HL]

            let addr = self.get_pair(Register::H, Register::L);
            let old_value = mmu.read(addr);
            proof {
                lemma_wrap8(old_value + 1);
            }
            let value = old_value.wrapping_add(1);
            mmu.write(addr, value);

            self.flag_z = (value == 0x00);

            self.flag_n = false;

            proof {
                lemma_low_nibble(value);
            }
            self.flag_h = ((value & 0x0F) == 0);

            self.pc += 1;
            self.cycles += 12;
        } else {
            // INC r

            self.inc(register_of(r));

            self.pc += 1;
            self.cycles += 4;
        }
    }

    /// DEC r and DEC [HL].
    #[verifier::rlimit(100)]
    fn step_dec(&mut self, mmu: &mut Mmu, opcode: u8)
        requires
            opcode == fetch(old(self)@, old(mmu)@),
            opcode < 0x40,
            opcode % 8 == 5,
            step_ok(old(self)@, old(mmu)@),
        ensures
            (final(self)@, final(mmu)@) == step_spec(old(self)@, old(mmu)@),
    {
        proof {
            lemma_opcode_fields(opcode);
            assert((opcode / 8) % 8 == opcode / 8);
        }
        let r = (opcode >> 3) & 7;
        if r == 6 {
            // DEC [HL]

            let addr = self.get_pair(Register::H, Register::L);
            let old_value = mmu.read(addr);
            proof {
                lemma_wrap8(old_value + 255);
            }
            let value = old_value.wrapping_sub(1);
            mmu.write(addr, value);

            self.flag_z = (value == 0x00);

            self.flag_n = true;

            proof {
                lemma_low_nibble(value);
            }
            self.flag_h = (value & 0x0F == 0x0F);

            self.pc += 1;
            self.cycles += 12;
        } else {
            // DEC r

            self.dec(register_of(r));

            self.pc += 1;
            self.cycles += 4;
        }
    }

    /// LD r, n8 and LD [HL], n8.
    #[verifier::rlimit(100)]
    fn step_load_immediate(&mut self, mmu: &mut Mmu, opcode: u8)
        requires
            opcode == fetch(old(self)@, old(mmu)@),
            opcode < 0x40,
            opcode % 8 == 6,
            step_ok(old(self)@, old(mmu)@),
        ensures
            (final(self)@, final(mmu)@) == step_spec(old(self)@, old(mmu)@),
    {
        proof {
            lemma_opcode_fields(opcode);
            assert((opcode / 8) % 8 == opcode / 8);
        }
        let r = (opcode >> 3) & 7;
        if r == 6 {
            // LD [HL], n8

            let addr = self.get_pair(Register::H, Register::L);
            let value = mmu.read(self.pc + 1);

            mmu.write(addr, value);

            self.pc += 2;
            self.cycles += 12;
        } else {
            // LD r, n8

            let value = mmu.read(self.pc + 1);
            self.set_register(register_of(r), value);

            self.pc += 2;
            self.cycles += 8;
        }
    }

    /// RST $00, $08, $10, $18, $20, $28, $30, $38.
    fn step_restart(&mut self, mmu: &mut Mmu, opcode: u8)
        requires
            opcode == fetch(old(self)@, old(mmu)@),
            opcode >= 0xC0,
            opcode % 8 == 7,
            step_ok(old(self)@, old(mmu)@),
        ensures
            (final(self)@, final(mmu)@) == step_spec(old(self)@, old(mmu)@),
    {
        self.sp -= 2;
        mmu.write_word(self.sp, self.pc + 1);

        self.pc = (opcode - 0xC7) as u16;
        self.cycles += 16;
    }

    /// ADD, ADC, SUB, SBC, AND, XOR, OR, CP with the byte after the opcode; AND and CP take
    /// 4 cycles, the others 8.
    fn step_alu_immediate(&mut self, mmu: &mut Mmu, opcode: u8)
        requires
            opcode == fetch(old(self)@, old(mmu)@),
            opcode >= 0xC0,
            opcode % 8 == 6,
            step_ok(old(self)@, old(mmu)@),
        ensures
            (final(self)@, final(mmu)@) == step_spec(old(self)@, old(mmu)@),
    {
        proof {
            lemma_opcode_fields(opcode);
        }
        let kind = (opcode >> 3) & 7;
        let data = mmu.read(self.pc + 1);
        self.alu_op(kind, data);

        self.pc += 2;
        if opcode == 0xE6 || opcode == 0xFE {
            self.cycles += 4;
        } else {
            self.cycles += 8;
        }
    }

    #[verifier::spinoff_prover]
    #[verifier::rlimit(100)]
    fn step_row_0(&mut self, mmu: &mut Mmu, opcode: u8)
        requires
            opcode == fetch(old(self)@, old(mmu)@),
            0x00 <= opcode <= 0x0F, opcode % 8 != 4, opcode % 8 != 5, opcode % 8 != 6,
            step_ok(old(self)@, old(mmu)@),
        ensures
            (final(self)@, final(mmu)@) == step_spec(old(self)@, old(mmu)@),
    {
        match opcode {
            0x00 => {
                // NOP

                self.pc += 1;
                self.cycles += 4;
            },
            0x01 => {
                // LD BC, n16

                let (high, low) = mmu.read_word_pair(self.pc + 1);

                self.set_register(Register::B, high);
                self.set_register(Register::C, low);

                self.pc += 3;
                self.cycles += 12;
            },
            0x02 => {
                // LD [BC], A

                let addr = self.get_pair(Register::B, Register::C);
                mmu.write(addr, self.get_register(Register::A));

                self.pc += 1;
                self.cycles += 8;
            },
            0x03 => {
                // INC BC

                proof {
                    lemma_wrap16(self@.bc() + 1);
                }

                let value = self.get_pair(Register::B, Register::C);
                self.set_pair(Register::B, Register::C, value.wrapping_add(1));

                self.pc += 1;
                self.cycles += 4;
            },
            0x07 => {
                // RLCA

                proof {
                    lemma_rotations(self.a, 0);
                }
                self.flag_c = (self.a & 0x80) != 0;

                self.a = (self.a << 1) | (self.a >> 7);

                self.flag_z = false;
                self.flag_h = false;
                self.flag_n = false;

                self.pc += 1;
                self.cycles += 4;
            },
            0x08 => {
                // LD [a16], SP

                let addr = mmu.read_word(self.pc + 1);
                mmu.write_word(addr, self.sp);

                self.pc += 3;
                self.cycles += 20;
            },
            0x09 => {
                // ADD HL, BC

                let bc = self.get_pair(Register::B, Register::C);
                let hl = self.get_pair(Register::H, Register::L);
                self.add_hl(hl, bc);

                self.pc += 1;
                self.cycles += 8;
            },
            0x0A => {
                // LD A, [BC]

                let bc = self.get_pair(Register::B, Register::C);
                self.a = mmu.read(bc);

                self.pc += 1;
                self.cycles += 8;
            },
            0x0B => {
                // DEC BC

                proof {
                    lemma_wrap16(self@.bc() + 0xFFFF);
                }

                let mut bc = self.get_pair(Register::B, Register::C);
                bc = bc.wrapping_sub(1);

                self.set_pair(Register::B, Register::C, bc);

                self.pc += 1;
                self.cycles += 8;
            },
            0x0F => {
                // RRCA

                proof {
                    lemma_rotations(self.a, 0);
                }
                self.flag_c = (self.a & 0x01) != 0;

                self.a = (self.a >> 1) | (self.a << 7);

                self.flag_z = false;
                self.flag_h = false;
                self.flag_n = false;

                self.pc += 1;
                self.cycles += 4;
            },
            _ => {
                // the dispatcher sends no other opcode here
                proof {
                    assert(false);
                }
            },
        }
    }

    /// 0x10..=0x1F, but for INC, DEC and LD r, n8.
    #[verifier::spinoff_prover]
    #[verifier::rlimit(100)]
    fn step_row_1(&mut self, mmu: &mut Mmu, opcode: u8)
        requires
            opcode == fetch(old(self)@, old(mmu)@),
            0x10 <= opcode <= 0x1F, opcode % 8 != 4, opcode % 8 != 5, opcode % 8 != 6,
            step_ok(old(self)@, old(mmu)@),
        ensures
            (final(self)@, final(mmu)@) == step_spec(old(self)@, old(mmu)@),
    {
        match opcode {
            0x10 => {
                // STOP n8

                self.pc += 2;
                self.cycles += 4;
            },
            0x11 => {
                // LD DE, n16

                let (high, low) = mmu.read_word_pair(self.pc + 1);

                self.set_register(Register::D, high);
                self.set_register(Register::E, low);

                self.pc += 3;
                self.cycles += 12;
            },
            0x12 => {
                // LD [DE], A

                let addr = self.get_pair(Register::D, Register::E);
                mmu.write(addr, self.get_register(Register::A));

                self.pc += 1;
                self.cycles += 8;
            },
            0x13 => {
                // INC DE

                proof {
                    lemma_wrap16(self@.de() + 1);
                }

                let value = self.get_pair(Register::D, Register::E);
                self.set_pair(Register::D, Register::E, value.wrapping_add(1));

                self.pc += 1;
                self.cycles += 8;
            },
            0x17 => {
                // RLA

                let flag_c_bit = self.flag_c as u8;
                proof {
                    lemma_rotations(self.a, flag_c_bit);
                }
                self.flag_c = (self.a & 0x80) != 0;

                self.a = (self.a << 1) | (flag_c_bit);

                self.flag_z = false;
                self.flag_h = false;
                self.flag_n = false;

                self.pc += 1;
                self.cycles += 4;
            },
            0x18 => {
                // JR e8

                let offset = mmu.read(self.pc + 1);
                proof {
                    lemma_sign_extend(offset);
                    lemma_wrap16(self.pc + sext16(offset));
                }
                self.pc = self.pc.wrapping_add((offset as i8) as u16);

                self.pc += 2;
                self.cycles += 12;
            },
            0x19 => {
                // ADD HL, DE

                let de = self.get_pair(Register::D, Register::E);
                let hl = self.get_pair(Register::H, Register::L);
                self.add_hl(hl, de);

                self.pc += 1;
                self.cycles += 8;
            },
            0x1A => {
                // LD A, [DE]

                let de = self.get_pair(Register::D, Register::E);
                self.a = mmu.read(de);

                self.pc += 1;
                self.cycles += 8;
            },
            0x1B => {
                // DEC DE

                proof {
                    lemma_wrap16(self@.de() + 0xFFFF);
                }

                let mut de = self.get_pair(Register::D, Register::E);
                de = de.wrapping_sub(1);

                self.set_pair(Register::D, Register::E, de);

                self.pc += 1;
                self.cycles += 8;
            },
            0x1F => {
                // RRA

                let flag_c_bit = self.flag_c as u8;
                proof {
                    lemma_rotations(self.a, flag_c_bit);
                }
                self.flag_c = (self.a & 0x01) != 0;

                self.a = (self.a >> 1) | (flag_c_bit << 7);

                self.flag_z = false;
                self.flag_h = false;
                self.flag_n = false;

                self.pc += 1;
                self.cycles += 4;
            },
            _ => {
                // the dispatcher sends no other opcode here
                proof {
                    assert(false);
                }
            },
        }
    }

    /// 0x20..=0x2F, but for INC, DEC and LD r, n8.
    #[verifier::spinoff_prover]
    #[verifier::rlimit(100)]
    fn step_row_2(&mut self, mmu: &mut Mmu, opcode: u8)
        requires
            opcode == fetch(old(self)@, old(mmu)@),
            0x20 <= opcode <= 0x2F, opcode % 8 != 4, opcode % 8 != 5, opcode % 8 != 6,
            step_ok(old(self)@, old(mmu)@),
        ensures
            (final(self)@, final(mmu)@) == step_spec(old(self)@, old(mmu)@),
    {
        match opcode {
            0x20 | 0x28 => {
                // JR NZ, e8; JR Z, e8

                let taken = self.condition(opcode, 0x20);
                if taken {
                    let offset = mmu.read(self.pc + 1);
                    proof {
                        lemma_sign_extend(offset);
                        lemma_wrap16(self.pc + sext16(offset));
                    }
                    self.pc = self.pc.wrapping_add((offset as i8) as u16);

                    self.pc += 2;
                    self.cycles += 12;
                } else {
                    self.pc += 2;
                    self.cycles += 8;
                }
            },
            0x21 => {
                // LD HL, n16

                let (high, low) = mmu.read_word_pair(self.pc + 1);

                self.set_register(Register::H, high);
                self.set_register(Register::L, low);

                self.pc += 3;
                self.cycles += 12;
            },
            0x22 => {
                // LD [HL+], A

                proof {
                    lemma_wrap16(self@.hl() + 1);
                }

                let addr = self.get_pair(Register::H, Register::L);
                mmu.write(addr, self.get_register(Register::A));
                self.set_pair(Register::H, Register::L, addr.wrapping_add(1));

                self.pc += 1;
                self.cycles += 8;
            },
            0x23 => {
                // INC HL

                proof {
                    lemma_wrap16(self@.hl() + 1);
                }

                let value = self.get_pair(Register::H, Register::L);
                self.set_pair(Register::H, Register::L, value.wrapping_add(1));

                self.pc += 1;
                self.cycles += 8;
            },
            0x27 => {
                // DAA

                proof {
                    lemma_low_nibble(self.a);
                }
                let low = self.flag_h || (!self.flag_n && (self.a & 0x0F) > 0x09);
                let high = self.flag_c || (!self.flag_n && self.a > 0x99);
                let adjust: u8 = (if high {
                    0x60u8
                } else {
                    0
                }) + (if low {
                    0x06u8
                } else {
                    0
                });
                proof {
                    lemma_wrap8(self.a + 256 - adjust);
                    lemma_wrap8(self.a + adjust);
                }
                if self.flag_n {
                    self.a = self.a.wrapping_sub(adjust);
                } else {
                    self.a = self.a.wrapping_add(adjust);
                }

                self.flag_c = high;
                self.flag_z = self.a == 0;
                self.flag_h = false;

                self.pc += 1;
                self.cycles += 4;
            },
            0x29 => {
                // ADD HL, HL

                let hl = self.get_pair(Register::H, Register::L);
                self.add_hl(hl, hl);

                self.pc += 1;
                self.cycles += 8;
            },
            0x2A => {
                // LD A, [HL+]

                proof {
                    lemma_wrap16(self@.hl() + 1);
                }

                let hl = self.get_pair(Register::H, Register::L);
                self.a = mmu.read(hl);

                self.set_pair(Register::H, Register::L, hl.wrapping_add(1));

                self.pc += 1;
                self.cycles += 8;
            },
            0x2B => {
                // DEC HL

                proof {
                    lemma_wrap16(self@.hl() + 0xFFFF);
                }

                let mut hl = self.get_pair(Register::H, Register::L);
                hl = hl.wrapping_sub(1);

                self.set_pair(Register::H, Register::L, hl);

                self.pc += 1;
                self.cycles += 8;
            },
            0x2F => {
                // CPL

                proof {
                    lemma_rotations(self.a, 0);
                }
                self.a = !self.a;

                self.flag_n = true;
                self.flag_h = true;

                self.pc += 1;
                self.cycles += 4;
            },
            _ => {
                // the dispatcher sends no other opcode here
                proof {
                    assert(false);
                }
            },
        }
    }

    /// 0x30..=0x3F, but for INC, DEC and LD r, n8.
    #[verifier::spinoff_prover]
    #[verifier::rlimit(100)]
    fn step_row_3(&mut self, mmu: &mut Mmu, opcode: u8)
        requires
            opcode == fetch(old(self)@, old(mmu)@),
            0x30 <= opcode <= 0x3F, opcode % 8 != 4, opcode % 8 != 5, opcode % 8 != 6,
            step_ok(old(self)@, old(mmu)@),
        ensures
            (final(self)@, final(mmu)@) == step_spec(old(self)@, old(mmu)@),
    {
        match opcode {
            0x30 | 0x38 => {
                // JR NC, e8; JR C, e8

                let taken = self.condition(opcode, 0x20);
                if taken {
                    let offset = mmu.read(self.pc + 1);
                    proof {
                        lemma_sign_extend(offset);
                        lemma_wrap16(self.pc + sext16(offset));
                    }
                    self.pc = self.pc.wrapping_add((offset as i8) as u16);

                    self.pc += 2;
                    self.cycles += 12;
                } else {
                    self.pc += 2;
                    self.cycles += 8;
                }
            },
            0x31 => {
                // LD SP, n16

                self.sp = mmu.read_word(self.pc + 1);

                self.pc += 3;
                self.cycles += 12;
            },
            0x32 => {
                // LD [HL-], A

                proof {
                    lemma_wrap16(self@.hl() + 0xFFFF);
                }

                let addr = self.get_pair(Register::H, Register::L);
                mmu.write(addr, self.get_register(Register::A));
                self.set_pair(Register::H, Register::L, addr.wrapping_sub(1));

                self.pc += 1;
                self.cycles += 8;
            },
            0x33 => {
                // INC SP

                proof {
                    lemma_wrap16(self@.sp + 1);
                }

                self.sp = self.sp.wrapping_add(1);

                self.pc += 1;
                self.cycles += 8;
            },
            0x37 => {
                // SCF

                self.flag_n = false;
                self.flag_h = false;
                self.flag_c = true;

                self.pc += 1;
                self.cycles += 4;
            },
            0x39 => {
                // ADD HL, SP

                let hl = self.get_pair(Register::H, Register::L);
                let sp = self.sp;
                self.add_hl(hl, sp);

                self.pc += 1;
                self.cycles += 8;
            },
            0x3A => {
                // LD A, [HL-]

                proof {
                    lemma_wrap16(self@.hl() + 0xFFFF);
                }

                let hl = self.get_pair(Register::H, Register::L);
                self.a = mmu.read(hl);

                self.set_pair(Register::H, Register::L, hl.wrapping_sub(1));

                self.pc += 1;
                self.cycles += 8;
            },
            0x3B => {
                // DEC SP

                proof {
                    lemma_wrap16(self@.sp + 0xFFFF);
                }

                self.sp = self.sp.wrapping_sub(1);

                self.pc += 1;
                self.cycles += 8;
            },
            0x3F => {
                // CCF

                self.flag_n = false;
                self.flag_h = false;
                self.flag_c = !self.flag_c;

                self.pc += 1;
                self.cycles += 4;
            },
            _ => {
                // the dispatcher sends no other opcode here
                proof {
                    assert(false);
                }
            },
        }
    }

    /// 0xC0..=0xCF, but for RST and the operations with an immediate byte.
    #[verifier::spinoff_prover]
    #[verifier::rlimit(100)]
    fn step_row_c(&mut self, mmu: &mut Mmu, opcode: u8)
        requires
            opcode == fetch(old(self)@, old(mmu)@),
            0xC0 <= opcode <= 0xCF, opcode % 8 != 6, opcode % 8 != 7,
            step_ok(old(self)@, old(mmu)@),
        ensures
            (final(self)@, final(mmu)@) == step_spec(old(self)@, old(mmu)@),
    {
        match opcode {
            0xC0 | 0xC8 => {
                // RET NZ; RET Z

                if self.condition(opcode, 0xC0) {
                    self.pc = mmu.read_word(self.sp);
                    self.sp += 2;
                    self.cycles += 20;
                } else {
                    self.cycles += 8;
                    self.pc += 1;
                }
            },
            0xC1 => {
                // POP BC

                let addr = mmu.read_word(self.sp);
                proof {
                    lemma_split_word(addr);
                }
                self.c = (addr & 0xFF) as u8;
                self.b = (addr >> 8 & 0xFF) as u8;
                self.sp += 2;

                self.cycles += 12;
                self.pc += 1;
            },
            0xC2 | 0xCA => {
                // JP NZ, a16; JP Z, a16

                if self.condition(opcode, 0xC2) {
                    self.pc = mmu.read_word(self.pc + 1);
                    self.cycles += 16;
                } else {
                    self.cycles += 12;
                    self.pc += 3;
                }
            },
            0xC3 => {
                // JP a16

                self.pc = mmu.read_word(self.pc + 1);
                self.cycles += 16;
            },
            0xC4 | 0xCC => {
                // CALL NZ, a16; CALL Z, a16

                if self.condition(opcode, 0xC4) {
                    self.sp -= 2;
                    mmu.write_word(self.sp, self.pc + 3);

                    self.pc = mmu.read_word(self.pc + 1);
                    self.cycles += 24;
                } else {
                    self.cycles += 12;
                    self.pc += 3;
                }
            },
            0xC5 => {
                // PUSH BC

                mmu.write(self.sp - 1, self.b);
                mmu.write(self.sp - 2, self.c);
                self.sp -= 2;

                self.cycles += 16;
                self.pc += 1;
            },
            0xC9 => {
                // RET

                self.pc = mmu.read_word(self.sp);
                self.sp += 2;
                self.cycles += 16;
            },
            0xCD => {
                // CALL a16

                self.sp -= 2;
                mmu.write_word(self.sp, self.pc + 3);
                self.pc = mmu.read_word(self.pc + 1);
                self.cycles += 24;
            },
            0xCB => {
                // PREFIX

                self.step_prefixed(mmu);
            },
            _ => {
                // the dispatcher sends no other opcode here
                proof {
                    assert(false);
                }
            },
        }
    }

    /// 0xD0..=0xDF, but for RST and the operations with an immediate byte.
    #[verifier::spinoff_prover]
    #[verifier::rlimit(100)]
    fn step_row_d(&mut self, mmu: &mut Mmu, opcode: u8)
        requires
            opcode == fetch(old(self)@, old(mmu)@),
            0xD0 <= opcode <= 0xDF, opcode % 8 != 6, opcode % 8 != 7,
            step_ok(old(self)@, old(mmu)@),
        ensures
            (final(self)@, final(mmu)@) == step_spec(old(self)@, old(mmu)@),
    {
        match opcode {
            0xD0 | 0xD8 => {
                // RET NC; RET C

                if self.condition(opcode, 0xC0) {
                    self.pc = mmu.read_word(self.sp);
                    self.sp += 2;
                    self.cycles += 20;
                } else {
                    self.cycles += 8;
                    self.pc += 1;
                }
            },
            0xD2 | 0xDA => {
                // JP NC, a16; JP C, a16

                if self.condition(opcode, 0xC2) {
                    self.pc = mmu.read_word(self.pc + 1);
                    self.cycles += 16;
                } else {
                    self.cycles += 12;
                    self.pc += 3;
                }
            },
            0xD4 | 0xDC => {
                // CALL NC, a16; CALL C, a16

                if self.condition(opcode, 0xC4) {
                    self.sp -= 2;
                    mmu.write_word(self.sp, self.pc + 3);

                    self.pc = mmu.read_word(self.pc + 1);
                    self.cycles += 24;
                } else {
                    self.cycles += 12;
                    self.pc += 3;
                }
            },
            0xD1 => {
                // POP DE

                let addr = mmu.read_word(self.sp);
                proof {
                    lemma_split_word(addr);
                }
                self.e = (addr & 0xFF) as u8;
                self.d = (addr >> 8 & 0xFF) as u8;
                self.sp += 2;

                self.cycles += 12;
                self.pc += 1;
            },
            0xD5 => {
                // PUSH DE

                mmu.write(self.sp - 1, self.d);
                mmu.write(self.sp - 2, self.e);
                self.sp -= 2;

                self.cycles += 16;
                self.pc += 1;
            },
            0xD9 => {
                // RETI

                self.pc = mmu.read_word(self.sp);
                self.sp += 2;
                self.ime = true;
                self.cycles += 16;
            },
            0xD3 | 0xDB | 0xDD => {
                // opcodes the processor does not define: nothing happens
            },
            _ => {
                // the dispatcher sends no other opcode here
                proof {
                    assert(false);
                }
            },
        }
    }

    /// 0xE0..=0xEF, but for RST and the operations with an immediate byte.
    #[verifier::spinoff_prover]
    #[verifier::rlimit(100)]
    fn step_row_e(&mut self, mmu: &mut Mmu, opcode: u8)
        requires
            opcode == fetch(old(self)@, old(mmu)@),
            0xE0 <= opcode <= 0xEF, opcode % 8 != 6, opcode % 8 != 7,
            step_ok(old(self)@, old(mmu)@),
        ensures
            (final(self)@, final(mmu)@) == step_spec(old(self)@, old(mmu)@),
    {
        match opcode {
            0xE0 => {
                // LDH [a8], A

                let addr = (mmu.read(self.pc + 1) as u16) + 0xFF00;
                mmu.write(addr, self.a);

                self.cycles += 12;
                self.pc += 2;
            },
            0xE1 => {
                // POP HL

                let addr = mmu.read_word(self.sp);
                proof {
                    lemma_split_word(addr);
                }
                self.l = (addr & 0xFF) as u8;
                self.h = (addr >> 8 & 0xFF) as u8;
                self.sp += 2;

                self.cycles += 12;
                self.pc += 1;
            },
            0xE2 => {
                // LDH [C], A

                let addr = (self.c as u16) + 0xFF00;
                mmu.write(addr, self.a);

                self.cycles += 8;
                self.pc += 1;
            },
            0xE5 => {
                // PUSH HL

                mmu.write(self.sp - 1, self.h);
                mmu.write(self.sp - 2, self.l);
                self.sp -= 2;

                self.cycles += 16;
                self.pc += 1;
            },
            0xE8 => {
                // ADD SP, e8

                let offset = mmu.read(self.pc + 1);
                proof {
                    lemma_sign_extend(offset);
                    lemma_wrap16(self.sp + sext16(offset));
                }
                let value = (offset as i8) as u16;
                proof {
                    lemma_low_bits_u16(self.sp);
                    lemma_low_bits_u16(value);
                }

                self.flag_h = ((self.sp & 0x000F) + (value & 0x000F)) > 0x000F;
                self.flag_c = ((self.sp & 0x00FF) + (value & 0x00FF)) > 0x00FF;

                self.sp = self.sp.wrapping_add(value);

                self.flag_z = false;

                self.flag_n = false;

                self.pc += 2;
                self.cycles += 16;
            },
            0xE9 => {
                // JP HL

                self.pc = self.get_pair(Register::H, Register::L);
                self.cycles += 4;
            },
            0xEA => {
                // LD [a16], A

                let addr = mmu.read_word(self.pc + 1);
                mmu.write(addr, self.a);

                self.pc += 3;
                self.cycles += 16;
            },
            0xE3 | 0xE4 | 0xEB | 0xEC | 0xED => {
                // opcodes the processor does not define: nothing happens
            },
            _ => {
                // the dispatcher sends no other opcode here
                proof {
                    assert(false);
                }
            },
        }
    }

    /// 0xF0..=0xFF, but for RST and the operations with an immediate byte.
    #[verifier::spinoff_prover]
    #[verifier::rlimit(100)]
    fn step_row_f(&mut self, mmu: &mut Mmu, opcode: u8)
        requires
            opcode == fetch(old(self)@, old(mmu)@),
            0xF0 <= opcode <= 0xFF, opcode % 8 != 6, opcode % 8 != 7,
            step_ok(old(self)@, old(mmu)@),
        ensures
            (final(self)@, final(mmu)@) == step_spec(old(self)@, old(mmu)@),
    {
        match opcode {
            0xF0 => {
                // LDH A, [a8]

                let addr = (mmu.read(self.pc + 1) as u16) + 0xFF00;
                self.a = mmu.read(addr);

                self.cycles += 12;
                self.pc += 2;
            },
            0xF1 => {
                // POP AF

                let f = mmu.read(self.sp);
                proof {
                    lemma_flag_byte(f);
                }
                self.flag_z = (f & 0x80) != 0;
                self.flag_n = (f & 0x40) != 0;
                self.flag_h = (f & 0x20) != 0;
                self.flag_c = (f & 0x10) != 0;

                self.a = mmu.read(self.sp + 1);
                self.sp += 2;

                self.cycles += 12;
                self.pc += 1;
            },
            0xF2 => {
                // LDH A, [C]

                let addr = (self.c as u16) + 0xFF00;
                let value = mmu.read(addr);
                self.a = value;

                self.cycles += 8;
                self.pc += 1;
            },
            0xF3 => {
                // DI

                self.ime = false;

                self.cycles += 4;
                self.pc += 1;
            },
            0xF5 => {
                // PUSH AF

                proof {
                    lemma_pack_flags(
                        self.flag_z as u8,
                        self.flag_n as u8,
                        self.flag_h as u8,
                        self.flag_c as u8,
                    );
                }
                let f = ((self.flag_z as u8) << 7) | ((self.flag_n as u8) << 6) | ((
                self.flag_h as u8) << 5) | ((self.flag_c as u8) << 4);

                mmu.write(self.sp - 1, self.a);
                mmu.write(self.sp - 2, f);
                self.sp -= 2;

                self.cycles += 16;
                self.pc += 1;
            },
            0xF8 => {
                // LD HL, SP + e8

                let offset = mmu.read(self.pc + 1);
                proof {
                    lemma_sign_extend(offset);
                    lemma_wrap16(self.sp + sext16(offset));
                }
                let e8 = (offset as i8) as u16;
                let value = self.sp.wrapping_add(e8);
                self.set_pair(Register::H, Register::L, value);

                self.flag_z = false;
                self.flag_n = false;

                proof {
                    lemma_low_bits_u16(self.sp);
                    lemma_low_bits_u16(e8);
                }
                self.flag_h = ((self.sp & 0x000F) + (e8 & 0x000F)) > 0x000F;
                self.flag_c = ((self.sp & 0x00FF) + (e8 & 0x00FF)) > 0x00FF;

                self.pc += 2;
                self.cycles += 12;
            },
            0xF9 => {
                // LD SP, HL

                self.sp = self.get_pair(Register::H, Register::L);

                self.pc += 1;
                self.cycles += 8;
            },
            0xFA => {
                // LD A, [a16]

                let addr = mmu.read_word(self.pc + 1);
                self.a = mmu.read(addr);

                self.pc += 3;
                self.cycles += 16;
            },
            0xFB => {
                // EI

                self.ime = true;

                self.pc += 1;
                self.cycles += 4;
            },
            0xF4 | 0xFC | 0xFD => {
                // opcodes the processor does not define: nothing happens
            },
            _ => {
                // the dispatcher sends no other opcode here
                proof {
                    assert(false);
                }
            },
        }
    }

    /// The 0xCB page: the byte after the prefix, `xx yyy zzz`, selects the shift `y` (x = 0),
    /// BIT y (x = 1), RES y (x = 2) or SET y (x = 3) on operand `z`.
    #[verifier::rlimit(100)]
    fn step_prefixed(&mut self, mmu: &mut Mmu)
        requires
            fetch(old(self)@, old(mmu)@) == 0xCB,
            step_ok(old(self)@, old(mmu)@),
        ensures
            (final(self)@, final(mmu)@) == step_spec(old(self)@, old(mmu)@),
    {
        let cb = mmu.read(self.pc + 1);
        proof {
            lemma_opcode_fields(cb);
            lemma_shifts(cb);
        }
        let x = cb >> 6;
        let y = (cb >> 3) & 7;
        let z = cb & 7;
        let value = self.read_operand(mmu, z);
        let mask = mask_of(y);
        if x == 0 {
            let result = self.shift_operand(y, value);
            self.write_operand(mmu, z, result);
        } else if x == 1 {
            self.flag_z = value & mask == 0;
            self.flag_n = false;
            self.flag_h = true;
        } else if x == 2 {
            self.write_operand(mmu, z, value & !mask);
        } else {
            self.write_operand(mmu, z, value | mask);
        }

        self.pc += 2;
        if z != 6 {
            self.cycles += 8;
        } else if x == 1 {
            self.cycles += 12;
        } else {
            self.cycles += 16;
        }
    }

    /// RLC, RRC, RL, RR, SLA, SRA, SWAP, SRL of `v`, by index `kind`: sets Z from the result,
    /// clears N and H, and sets C to the bit shifted out.
    fn shift_operand(&mut self, kind: u8, v: u8) -> (r: u8)
        requires
            kind < 8,
        ensures
            r == shift(kind as int, v, old(self)@.carry()).0,
            final(self)@ == (CpuView {
                flag_z: r == 0,
                flag_n: false,
                flag_h: false,
                flag_c: shift(kind as int, v, old(self)@.carry()).1,
                ..old(self)@
            }),
    {
        let carry = self.flag_c as u8;
        proof {
            lemma_rotations(v, carry);
            lemma_shifts(v);
        }
        let result: u8;
        let out: bool;
        if kind == 0 {
            result = (v << 1) | (v >> 7);
            out = (v & 0x80) != 0;
        } else if kind == 1 {
            result = (v >> 1) | (v << 7);
            out = (v & 0x01) != 0;
        } else if kind == 2 {
            result = (v << 1) | carry;
            out = (v & 0x80) != 0;
        } else if kind == 3 {
            result = (v >> 1) | (carry << 7);
            out = (v & 0x01) != 0;
        } else if kind == 4 {
            result = v << 1;
            out = (v & 0x80) != 0;
        } else if kind == 5 {
            result = (v >> 1) | (v & 0x80);
            out = (v & 0x01) != 0;
        } else if kind == 6 {
            result = (v << 4) | (v >> 4);
            out = false;
        } else {
            result = v >> 1;
            out = (v & 0x01) != 0;
        }
        self.flag_z = result == 0;
        self.flag_n = false;
        self.flag_h = false;
        self.flag_c = out;
        result
    }

    /// Stores `v` in operand `r`: a register, or for 6 the byte at HL.
    fn write_operand(&mut self, mmu: &mut Mmu, r: u8, v: u8)
        requires
            r < 8,
        ensures
            (final(self)@, final(mmu)@) == store_operand(old(self)@, old(mmu)@, r as int, v),
    {
        if r == 6 {
            let addr = self.get_pair(Register::H, Register::L);
            mmu.write(addr, v);
        } else {
            self.set_register(register_of(r), v);
        }
    }

    /// HL := `hl` + `other` modulo 2^16, with N cleared and H and C set from bits 11 and 15.
    fn add_hl(&mut self, hl: u16, other: u16)
        requires
            hl == old(self)@.hl(),
        ensures
            final(self)@ == add16_flags(old(self)@, hl, other).set_hl(((hl + other) % 0x10000) as u16),
    {
        let value = other.wrapping_add(hl);

        self.set_pair(Register::H, Register::L, value);

        proof {
            lemma_low_twelve_bits(hl);
            lemma_low_twelve_bits(other);
        }
        self.flag_n = false;
        self.flag_h = ((other & 0x0FFF) + (hl & 0x0FFF)) > 0x0FFF;
        self.flag_c = hl as u32 + other as u32 > 0xFFFF;
    }

    /// Whether the branch condition of a conditional opcode holds: `base` is the
    /// opcode of its NZ form; NZ, Z, NC and C follow at steps of 8.
    fn condition(&self, opcode: u8, base: u8) -> (r: bool)
        requires
            opcode == base || opcode == base + 8 || opcode == base + 16 || opcode == base + 24,
        ensures
            r == self@.cond((opcode - base) / 8),
    {
        if opcode == base {
            !self.flag_z
        } else if opcode == base + 8 {
            self.flag_z
        } else if opcode == base + 16 {
            !self.flag_c
        } else {
            self.flag_c
        }
    }

}

} // verus!
