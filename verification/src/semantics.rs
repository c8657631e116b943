use vstd::prelude::*;

use crate::mmu::MmuView;

verus! {

/// Abstract state of the processor: the 8-bit registers, the flags,
/// the program counter, the stack pointer, the interrupt master enable
/// and the count of elapsed clock cycles.
pub struct CpuView {
    pub a: u8,
    pub b: u8,
    pub c: u8,
    pub d: u8,
    pub e: u8,
    pub h: u8,
    pub l: u8,
    pub flag_z: bool,
    pub flag_n: bool,
    pub flag_h: bool,
    pub flag_c: bool,
    pub pc: u16,
    pub sp: u16,
    pub ime: bool,
    pub cycles: u64,
}

/// The 16-bit value of a relative offset byte, sign-extended.
pub open spec fn sext16(e: u8) -> u16 {
    if e < 128 {
        e as u16
    } else {
        (e + 0xFF00) as u16
    }
}

/// The target of a relative jump by `e` from `pc`, modulo 2^16.
pub open spec fn jr_target(pc: u16, e: u8) -> int {
    (pc + sext16(e)) % 0x10000
}

impl CpuView {
    /// The register with the given operand index: 0 B, 1 C, 2 D, 3 E, 4 H, 5 L, 7 A.
    pub open spec fn reg(self, r: int) -> u8 {
        if r == 0 {
            self.b
        } else if r == 1 {
            self.c
        } else if r == 2 {
            self.d
        } else if r == 3 {
            self.e
        } else if r == 4 {
            self.h
        } else if r == 5 {
            self.l
        } else {
            self.a
        }
    }

    pub open spec fn set_reg(self, r: int, v: u8) -> CpuView {
        if r == 0 {
            CpuView { b: v, ..self }
        } else if r == 1 {
            CpuView { c: v, ..self }
        } else if r == 2 {
            CpuView { d: v, ..self }
        } else if r == 3 {
            CpuView { e: v, ..self }
        } else if r == 4 {
            CpuView { h: v, ..self }
        } else if r == 5 {
            CpuView { l: v, ..self }
        } else {
            CpuView { a: v, ..self }
        }
    }

    pub open spec fn bc(self) -> u16 {
        (self.b * 256 + self.c) as u16
    }

    pub open spec fn de(self) -> u16 {
        (self.d * 256 + self.e) as u16
    }

    pub open spec fn hl(self) -> u16 {
        (self.h * 256 + self.l) as u16
    }

    pub open spec fn set_bc(self, v: u16) -> CpuView {
        CpuView { b: (v / 256) as u8, c: (v % 256) as u8, ..self }
    }

    pub open spec fn set_de(self, v: u16) -> CpuView {
        CpuView { d: (v / 256) as u8, e: (v % 256) as u8, ..self }
    }

    pub open spec fn set_hl(self, v: u16) -> CpuView {
        CpuView { h: (v / 256) as u8, l: (v % 256) as u8, ..self }
    }

    /// The flag byte as PUSH AF stores it: Z in bit 7, N in bit 6, H in bit 5, C in bit 4.
    pub open spec fn f(self) -> u8 {
        ((if self.flag_z { 128int } else { 0 }) + (if self.flag_n { 64int } else { 0 }) + (
        if self.flag_h { 32int } else { 0 }) + (if self.flag_c { 16int } else { 0 })) as u8
    }

    /// The carry flag as a number.
    pub open spec fn carry(self) -> int {
        if self.flag_c {
            1
        } else {
            0
        }
    }

    /// Branch condition `k`: 0 NZ, 1 Z, 2 NC, 3 C.
    pub open spec fn cond(self, k: int) -> bool {
        if k == 0 {
            !self.flag_z
        } else if k == 1 {
            self.flag_z
        } else if k == 2 {
            !self.flag_c
        } else {
            self.flag_c
        }
    }

    /// The program counter moved on by `n` bytes.
    pub open spec fn step_pc(self, n: int) -> CpuView {
        CpuView { pc: (self.pc + n) as u16, ..self }
    }

    /// Flags after an 8-bit increment that gave `v`.
    pub open spec fn inc_flags(self, v: u8) -> CpuView {
        CpuView { flag_z: v == 0, flag_n: false, flag_h: v % 16 == 0, ..self }
    }

    /// Flags after an 8-bit decrement that gave `v`.
    pub open spec fn dec_flags(self, v: u8) -> CpuView {
        CpuView { flag_z: v == 0, flag_n: true, flag_h: v % 16 == 15, ..self }
    }
}

/// The 8-bit arithmetic and logic operations on A, by the index that the opcode
/// holds in bits 3..5: 0 ADD, 1 ADC, 2 SUB, 3 SBC, 4 AND, 5 XOR, 6 OR, 7 CP.
pub open spec fn alu(c: CpuView, kind: int, v: u8) -> CpuView {
    let a = c.a;
    if kind == 0 {
        let r = ((a + v) % 256) as u8;
        CpuView {
            a: r,
            flag_z: r == 0,
            flag_n: false,
            flag_h: a % 16 + v % 16 > 15,
            flag_c: a + v > 255,
            ..c
        }
    } else if kind == 1 {
        let r = ((a + v + c.carry()) % 256) as u8;
        CpuView {
            a: r,
            flag_z: r == 0,
            flag_n: false,
            flag_h: a % 16 + v % 16 + c.carry() > 15,
            flag_c: a + v + c.carry() > 255,
            ..c
        }
    } else if kind == 2 {
        let r = ((a - v + 256) % 256) as u8;
        CpuView { a: r, flag_z: r == 0, flag_n: true, flag_h: a % 16 < v % 16, flag_c: a < v, ..c }
    } else if kind == 3 {
        let r = ((a - v - c.carry() + 512) % 256) as u8;
        CpuView {
            a: r,
            flag_z: r == 0,
            flag_n: true,
            flag_h: a % 16 < v % 16 + c.carry(),
            flag_c: a < v + c.carry(),
            ..c
        }
    } else if kind == 4 {
        CpuView { a: a & v, flag_z: a & v == 0, flag_n: false, flag_h: true, flag_c: false, ..c }
    } else if kind == 5 {
        CpuView { a: a ^ v, flag_z: a ^ v == 0, flag_n: false, flag_h: false, flag_c: false, ..c }
    } else if kind == 6 {
        CpuView { a: a | v, flag_z: a | v == 0, flag_n: false, flag_h: false, flag_c: false, ..c }
    } else {
        CpuView { flag_z: a == v, flag_n: true, flag_h: a % 16 < v % 16, flag_c: a < v, ..c }
    }
}

/// The byte after the opcode.
pub open spec fn imm8(c: CpuView, m: MmuView) -> u8 {
    m.read((c.pc + 1) as u16)
}

/// The little-endian word after the opcode.
pub open spec fn imm16(c: CpuView, m: MmuView) -> u16 {
    m.read_word((c.pc + 1) as u16)
}

/// The 8-bit operand with index `r`: a register, or for index 6 the byte at HL.
pub open spec fn operand(c: CpuView, m: MmuView, r: int) -> u8 {
    if r == 6 {
        m.read(c.hl())
    } else {
        c.reg(r)
    }
}

/// The opcode at the program counter.
pub open spec fn fetch(c: CpuView, m: MmuView) -> u8 {
    m.read(c.pc)
}

/// 0x40..=0x7F: `LD r, r'` between registers and the byte at HL, and HALT.
pub open spec fn execute_load(c: CpuView, m: MmuView, op: u8) -> (CpuView, MmuView) {
    let dst = (op - 0x40) / 8;
    let src = (op % 8) as int;
    if op == 0x76 {
        (c.step_pc(1), m)
    } else if dst == 6 {
        (c.step_pc(1), m.write(c.hl(), c.reg(src)))
    } else {
        (c.set_reg(dst, operand(c, m, src)).step_pc(1), m)
    }
}

/// 0x80..=0xBF: the arithmetic and logic operations on A with a register or the byte at HL.
pub open spec fn execute_alu(c: CpuView, m: MmuView, op: u8) -> (CpuView, MmuView) {
    (alu(c, (op - 0x80) / 8, operand(c, m, (op % 8) as int)).step_pc(1), m)
}

/// DAA: the decimal adjustment of A after a BCD addition (N clear) or subtraction (N set).
/// The low correction 0x06 applies when H is set, or after an addition whose low digit is above 9;
/// the high correction 0x60 when C is set, or after an addition with A above 0x99.
pub open spec fn execute_daa(c: CpuView) -> CpuView {
    let lo = c.flag_h || (!c.flag_n && c.a % 16 > 9);
    let hi = c.flag_c || (!c.flag_n && c.a > 0x99);
    let adj: int = (if hi { 0x60int } else { 0 }) + (if lo { 0x06int } else { 0 });
    let a1: u8 = if c.flag_n {
        ((c.a - adj + 256) % 256) as u8
    } else {
        ((c.a + adj) % 256) as u8
    };
    CpuView { a: a1, flag_c: hi, flag_z: a1 == 0, flag_h: false, ..c }.step_pc(1)
}

/// The single-bit mask of bit `y`.
pub open spec fn bit_mask(y: int) -> u8 {
    if y == 0 {
        1
    } else if y == 1 {
        2
    } else if y == 2 {
        4
    } else if y == 3 {
        8
    } else if y == 4 {
        16
    } else if y == 5 {
        32
    } else if y == 6 {
        64
    } else {
        128
    }
}

/// The rotations and shifts of the 0xCB page, by the index in bits 3..5 of the second byte:
/// 0 RLC, 1 RRC, 2 RL, 3 RR, 4 SLA, 5 SRA, 6 SWAP, 7 SRL. The result and the bit shifted out.
pub open spec fn shift(kind: int, v: u8, carry: int) -> (u8, bool) {
    if kind == 0 {
        (((v * 2) % 256 + v / 128) as u8, v >= 128)
    } else if kind == 1 {
        ((v / 2 + (v % 2) * 128) as u8, v % 2 == 1)
    } else if kind == 2 {
        (((v * 2) % 256 + carry) as u8, v >= 128)
    } else if kind == 3 {
        ((v / 2 + carry * 128) as u8, v % 2 == 1)
    } else if kind == 4 {
        (((v * 2) % 256) as u8, v >= 128)
    } else if kind == 5 {
        ((v / 2 + (v / 128) * 128) as u8, v % 2 == 1)
    } else if kind == 6 {
        (((v % 16) * 16 + v / 16) as u8, false)
    } else {
        ((v / 2) as u8, v % 2 == 1)
    }
}

/// The operand `r` set to `v`: a register, or for index 6 the byte at HL.
pub open spec fn store_operand(c: CpuView, m: MmuView, r: int, v: u8) -> (CpuView, MmuView) {
    if r == 6 {
        (c, m.write(c.hl(), v))
    } else {
        (c.set_reg(r, v), m)
    }
}

/// 0xCB: the instruction given by the byte after the prefix, `xx yyy zzz`, on operand `z`:
/// for x = 0 the shift `y`, for x = 1 BIT y, for x = 2 RES y, for x = 3 SET y. Two bytes long.
pub open spec fn execute_cb(c: CpuView, m: MmuView) -> (CpuView, MmuView) {
    let cb = imm8(c, m);
    let x = cb / 64;
    let y = ((cb / 8) % 8) as int;
    let z = (cb % 8) as int;
    let v = operand(c, m, z);
    let c2 = c.step_pc(2);
    if x == 0 {
        let (r, out) = shift(y, v, c.carry());
        store_operand(
            CpuView { flag_z: r == 0, flag_n: false, flag_h: false, flag_c: out, ..c2 },
            m,
            z,
            r,
        )
    } else if x == 1 {
        (CpuView { flag_z: v & bit_mask(y) == 0, flag_n: false, flag_h: true, ..c2 }, m)
    } else if x == 2 {
        store_operand(c2, m, z, v & !bit_mask(y))
    } else {
        store_operand(c2, m, z, v | bit_mask(y))
    }
}

/// Flags after a 16-bit addition `x + y` into HL.
pub open spec fn add16_flags(c: CpuView, x: u16, y: u16) -> CpuView {
    CpuView { flag_n: false, flag_h: x % 4096 + y % 4096 > 4095, flag_c: x + y > 0xFFFF, ..c }
}

/// 0x00..=0x3F.
pub open spec fn execute_low(c: CpuView, m: MmuView, op: u8) -> (CpuView, MmuView) {
    let r = (op / 8) as int;
    let hl = c.hl();
    if op % 8 == 4 {
        if r == 6 {
            let v = ((m.read(hl) + 1) % 256) as u8;
            (c.inc_flags(v).step_pc(1), m.write(hl, v))
        } else {
            let v = ((c.reg(r) + 1) % 256) as u8;
            (c.set_reg(r, v).inc_flags(v).step_pc(1), m)
        }
    } else if op % 8 == 5 {
        if r == 6 {
            let v = ((m.read(hl) + 255) % 256) as u8;
            (c.dec_flags(v).step_pc(1), m.write(hl, v))
        } else {
            let v = ((c.reg(r) + 255) % 256) as u8;
            (c.set_reg(r, v).dec_flags(v).step_pc(1), m)
        }
    } else if op % 8 == 6 {
        if r == 6 {
            (c.step_pc(2), m.write(hl, imm8(c, m)))
        } else {
            (c.set_reg(r, imm8(c, m)).step_pc(2), m)
        }
    } else {
        match op {
            // LD rr, n16
            0x01 => (CpuView { b: m.read((c.pc + 2) as u16), c: imm8(c, m), ..c }.step_pc(3), m),
            0x11 => (CpuView { d: m.read((c.pc + 2) as u16), e: imm8(c, m), ..c }.step_pc(3), m),
            0x21 => (CpuView { h: m.read((c.pc + 2) as u16), l: imm8(c, m), ..c }.step_pc(3), m),
            0x31 => (CpuView { sp: imm16(c, m), ..c }.step_pc(3), m),
            // LD [rr], A
            0x02 => (c.step_pc(1), m.write(c.bc(), c.a)),
            0x12 => (c.step_pc(1), m.write(c.de(), c.a)),
            0x22 => (c.set_hl(((hl + 1) % 0x10000) as u16).step_pc(1), m.write(hl, c.a)),
            0x32 => (c.set_hl(((hl + 0xFFFF) % 0x10000) as u16).step_pc(1), m.write(hl, c.a)),
            // INC rr
            0x03 => (c.set_bc(((c.bc() + 1) % 0x10000) as u16).step_pc(1), m),
            0x13 => (c.set_de(((c.de() + 1) % 0x10000) as u16).step_pc(1), m),
            0x23 => (c.set_hl(((hl + 1) % 0x10000) as u16).step_pc(1), m),
            0x33 => (CpuView { sp: ((c.sp + 1) % 0x10000) as u16, ..c }.step_pc(1), m),
            // DEC rr
            0x0B => (c.set_bc(((c.bc() + 0xFFFF) % 0x10000) as u16).step_pc(1), m),
            0x1B => (c.set_de(((c.de() + 0xFFFF) % 0x10000) as u16).step_pc(1), m),
            0x2B => (c.set_hl(((hl + 0xFFFF) % 0x10000) as u16).step_pc(1), m),
            0x3B => (CpuView { sp: ((c.sp + 0xFFFF) % 0x10000) as u16, ..c }.step_pc(1), m),
            // ADD HL, rr
            0x09 => (add16_flags(c, hl, c.bc()).set_hl(((hl + c.bc()) % 0x10000) as u16).step_pc(1), m),
            0x19 => (add16_flags(c, hl, c.de()).set_hl(((hl + c.de()) % 0x10000) as u16).step_pc(1), m),
            0x29 => (add16_flags(c, hl, hl).set_hl(((hl + hl) % 0x10000) as u16).step_pc(1), m),
            0x39 => (add16_flags(c, hl, c.sp).set_hl(((hl + c.sp) % 0x10000) as u16).step_pc(1), m),
            // LD A, [rr]
            0x0A => (CpuView { a: m.read(c.bc()), ..c }.step_pc(1), m),
            0x1A => (CpuView { a: m.read(c.de()), ..c }.step_pc(1), m),
            0x2A => (CpuView { a: m.read(hl), ..c }.set_hl(((hl + 1) % 0x10000) as u16).step_pc(1), m),
            0x3A => (
                CpuView { a: m.read(hl), ..c }.set_hl(((hl + 0xFFFF) % 0x10000) as u16).step_pc(1),
                m,
            ),
            // rotations of A
            0x07 => (
                CpuView {
                    a: ((c.a * 2) % 256 + c.a / 128) as u8,
                    flag_c: c.a >= 128,
                    flag_z: false,
                    flag_h: false,
                    flag_n: false,
                    ..c
                }.step_pc(1),
                m,
            ),
            0x0F => (
                CpuView {
                    a: (c.a / 2 + (c.a % 2) * 128) as u8,
                    flag_c: c.a % 2 == 1,
                    flag_z: false,
                    flag_h: false,
                    flag_n: false,
                    ..c
                }.step_pc(1),
                m,
            ),
            0x17 => (
                CpuView {
                    a: ((c.a * 2) % 256 + c.carry()) as u8,
                    flag_c: c.a >= 128,
                    flag_z: false,
                    flag_h: false,
                    flag_n: false,
                    ..c
                }.step_pc(1),
                m,
            ),
            0x1F => (
                CpuView {
                    a: (c.a / 2 + c.carry() * 128) as u8,
                    flag_c: c.a % 2 == 1,
                    flag_z: false,
                    flag_h: false,
                    flag_n: false,
                    ..c
                }.step_pc(1),
                m,
            ),
            // LD [a16], SP
            0x08 => (c.step_pc(3), m.write_word(imm16(c, m), c.sp)),
            // STOP
            0x10 => (c.step_pc(2), m),
            // JR e8 and JR cc, e8
            0x18 => (CpuView { pc: (jr_target(c.pc, imm8(c, m)) + 2) as u16, ..c }, m),
            0x20 | 0x28 | 0x30 | 0x38 => if c.cond((op - 0x20) / 8) {
                (CpuView { pc: (jr_target(c.pc, imm8(c, m)) + 2) as u16, ..c }, m)
            } else {
                (c.step_pc(2), m)
            },
            0x27 => (execute_daa(c), m),
            // CPL, SCF, CCF
            0x2F => (CpuView { a: (255 - c.a) as u8, flag_n: true, flag_h: true, ..c }.step_pc(1), m),
            0x37 => (CpuView { flag_n: false, flag_h: false, flag_c: true, ..c }.step_pc(1), m),
            0x3F => (CpuView { flag_n: false, flag_h: false, flag_c: !c.flag_c, ..c }.step_pc(1), m),
            // NOP
            _ => (c.step_pc(1), m),
        }
    }
}

/// Pushing a return address: SP goes down by two and `value` is stored there, low byte first.
pub open spec fn push_word(c: CpuView, m: MmuView, value: int) -> (CpuView, MmuView) {
    let sp = (c.sp - 2) as u16;
    (CpuView { sp: sp, ..c }, m.write_word(sp, value as u16))
}

/// 0xC0..=0xFF.
pub open spec fn execute_high(c: CpuView, m: MmuView, op: u8) -> (CpuView, MmuView) {
    let sp = c.sp;
    if op % 8 == 7 {
        // RST
        let (c1, m1) = push_word(c, m, c.pc + 1);
        (CpuView { pc: (op - 0xC7) as u16, ..c1 }, m1)
    } else if op % 8 == 6 {
        // ALU with an immediate byte
        (alu(c, (op - 0xC0) / 8, imm8(c, m)).step_pc(2), m)
    } else {
        match op {
            // RET cc
            0xC0 | 0xC8 | 0xD0 | 0xD8 => if c.cond((op - 0xC0) / 8) {
                (CpuView { pc: m.read_word(sp), sp: (sp + 2) as u16, ..c }, m)
            } else {
                (c.step_pc(1), m)
            },
            0xC9 => (CpuView { pc: m.read_word(sp), sp: (sp + 2) as u16, ..c }, m),
            0xD9 => (CpuView { pc: m.read_word(sp), sp: (sp + 2) as u16, ime: true, ..c }, m),
            // POP
            0xC1 => (
                CpuView { c: m.read(sp), b: m.read((sp + 1) as u16), sp: (sp + 2) as u16, ..c }.step_pc(1),
                m,
            ),
            0xD1 => (
                CpuView { e: m.read(sp), d: m.read((sp + 1) as u16), sp: (sp + 2) as u16, ..c }.step_pc(1),
                m,
            ),
            0xE1 => (
                CpuView { l: m.read(sp), h: m.read((sp + 1) as u16), sp: (sp + 2) as u16, ..c }.step_pc(1),
                m,
            ),
            0xF1 => {
                let f = m.read(sp);
                (
                    CpuView {
                        flag_z: (f / 128) % 2 == 1,
                        flag_n: (f / 64) % 2 == 1,
                        flag_h: (f / 32) % 2 == 1,
                        flag_c: (f / 16) % 2 == 1,
                        a: m.read((sp + 1) as u16),
                        sp: (sp + 2) as u16,
                        ..c
                    }.step_pc(1),
                    m,
                )
            },
            // JP cc, JP
            0xC2 | 0xCA | 0xD2 | 0xDA => if c.cond((op - 0xC2) / 8) {
                (CpuView { pc: imm16(c, m), ..c }, m)
            } else {
                (c.step_pc(3), m)
            },
            0xC3 => (CpuView { pc: imm16(c, m), ..c }, m),
            // CALL cc, CALL: the target is read after the return address is pushed
            0xC4 | 0xCC | 0xD4 | 0xDC => if c.cond((op - 0xC4) / 8) {
                let (c1, m1) = push_word(c, m, c.pc + 3);
                (CpuView { pc: m1.read_word((c.pc + 1) as u16), ..c1 }, m1)
            } else {
                (c.step_pc(3), m)
            },
            0xCD => {
                let (c1, m1) = push_word(c, m, c.pc + 3);
                (CpuView { pc: m1.read_word((c.pc + 1) as u16), ..c1 }, m1)
            },
            // PUSH: the high byte at SP - 1, the low byte at SP - 2
            0xC5 => (
                CpuView { sp: (sp - 2) as u16, ..c }.step_pc(1),
                m.write((sp - 1) as u16, c.b).write((sp - 2) as u16, c.c),
            ),
            0xD5 => (
                CpuView { sp: (sp - 2) as u16, ..c }.step_pc(1),
                m.write((sp - 1) as u16, c.d).write((sp - 2) as u16, c.e),
            ),
            0xE5 => (
                CpuView { sp: (sp - 2) as u16, ..c }.step_pc(1),
                m.write((sp - 1) as u16, c.h).write((sp - 2) as u16, c.l),
            ),
            0xF5 => (
                CpuView { sp: (sp - 2) as u16, ..c }.step_pc(1),
                m.write((sp - 1) as u16, c.a).write((sp - 2) as u16, c.f()),
            ),
            // LDH
            0xE0 => (c.step_pc(2), m.write((imm8(c, m) + 0xFF00) as u16, c.a)),
            0xE2 => (c.step_pc(1), m.write((c.c + 0xFF00) as u16, c.a)),
            0xF0 => (CpuView { a: m.read((imm8(c, m) + 0xFF00) as u16), ..c }.step_pc(2), m),
            0xF2 => (CpuView { a: m.read((c.c + 0xFF00) as u16), ..c }.step_pc(1), m),
            // ADD SP, e8
            0xE8 => {
                let v = sext16(imm8(c, m));
                (
                    CpuView {
                        flag_h: sp % 16 + v % 16 > 15,
                        flag_c: sp % 256 + v % 256 > 255,
                        sp: ((sp + v) % 0x10000) as u16,
                        flag_z: false,
                        flag_n: false,
                        ..c
                    }.step_pc(2),
                    m,
                )
            },
            // LD HL, SP + e8
            0xF8 => {
                let v = sext16(imm8(c, m));
                (
                    CpuView {
                        flag_z: false,
                        flag_n: false,
                        flag_h: sp % 16 + v % 16 > 15,
                        flag_c: sp % 256 + v % 256 > 255,
                        ..c
                    }.set_hl(((sp + v) % 0x10000) as u16).step_pc(2),
                    m,
                )
            },
            0xE9 => (CpuView { pc: c.hl(), ..c }, m),
            0xEA => (c.step_pc(3), m.write(imm16(c, m), c.a)),
            0xFA => (CpuView { a: m.read(imm16(c, m)), ..c }.step_pc(3), m),
            0xF3 => (CpuView { ime: false, ..c }.step_pc(1), m),
            0xFB => (CpuView { ime: true, ..c }.step_pc(1), m),
            0xF9 => (CpuView { sp: c.hl(), ..c }.step_pc(1), m),
            0xCB => execute_cb(c, m),
            // the opcodes that the processor does not define: nothing happens
            _ => (c, m),
        }
    }
}

/// What the instruction at the program counter does to the processor and the memory,
/// leaving aside the cycle count.
pub open spec fn execute(c: CpuView, m: MmuView) -> (CpuView, MmuView) {
    let op = fetch(c, m);
    if 0x40 <= op < 0x80 {
        execute_load(c, m, op)
    } else if 0x80 <= op < 0xC0 {
        execute_alu(c, m, op)
    } else if op < 0x40 {
        execute_low(c, m, op)
    } else {
        execute_high(c, m, op)
    }
}

/// The number of clock cycles that the instruction at the program counter takes.
pub open spec fn cycles_of(c: CpuView, m: MmuView) -> int {
    let op = fetch(c, m);
    if 0x40 <= op < 0x80 {
        if op == 0x76 || (op - 0x40) / 8 == 6 {
            8
        } else {
            4
        }
    } else if 0x80 <= op < 0xC0 {
        if op % 8 == 6 {
            8
        } else {
            4
        }
    } else if op < 0x40 {
        if op % 8 == 4 || op % 8 == 5 {
            if op / 8 == 6 {
                12
            } else {
                4
            }
        } else if op % 8 == 6 {
            if op / 8 == 6 {
                12
            } else {
                8
            }
        } else {
            match op {
                0x01 | 0x11 | 0x21 | 0x31 | 0x18 => 12,
                0x08 => 20,
                0x00 | 0x03 | 0x07 | 0x0F | 0x17 | 0x1F | 0x10 | 0x27 | 0x2F | 0x37 | 0x3F => 4,
                0x20 | 0x28 | 0x30 | 0x38 => if c.cond((op - 0x20) / 8) {
                    12
                } else {
                    8
                },
                _ => 8,
            }
        }
    } else {
        if op % 8 == 7 {
            16
        } else if op % 8 == 6 {
            if op == 0xE6 || op == 0xFE {
                4
            } else {
                8
            }
        } else if op == 0xCB {
            let cb = imm8(c, m);
            if cb % 8 != 6 {
                8
            } else if cb / 64 == 1 {
                12
            } else {
                16
            }
        } else {
            match op {
                0xC0 | 0xC8 | 0xD0 | 0xD8 => if c.cond((op - 0xC0) / 8) {
                    20
                } else {
                    8
                },
                0xC2 | 0xCA | 0xD2 | 0xDA => if c.cond((op - 0xC2) / 8) {
                    16
                } else {
                    12
                },
                0xC4 | 0xCC | 0xD4 | 0xDC => if c.cond((op - 0xC4) / 8) {
                    24
                } else {
                    12
                },
                0xCD => 24,
                0xC9 | 0xD9 | 0xC3 | 0xC5 | 0xD5 | 0xE5 | 0xF5 | 0xE8 | 0xEA | 0xFA => 16,
                0xC1 | 0xD1 | 0xE1 | 0xF1 | 0xE0 | 0xF0 | 0xF8 => 12,
                0xE2 | 0xF2 | 0xF9 => 8,
                0xE9 | 0xF3 | 0xFB => 4,
                _ => 0,
            }
        }
    }
}

/// The program counter can move on by `n` bytes without leaving the 16-bit range.
pub open spec fn pc_room(c: CpuView, n: int) -> bool {
    c.pc + n <= 0xFFFF
}

/// The 16-bit address arithmetic of the instruction at the program counter stays in range:
/// reading its operands, moving the program counter on, and moving the stack pointer.
pub open spec fn addresses_in_range(c: CpuView, m: MmuView) -> bool {
    let op = fetch(c, m);
    if op < 0x40 {
        if op % 8 == 6 || op == 0x10 {
            pc_room(c, 2)
        } else {
            match op {
                0x01 | 0x11 | 0x21 | 0x31 => pc_room(c, 3),
                0x08 => pc_room(c, 3) && imm16(c, m) < 0xFFFF,
                0x18 => pc_room(c, 1) && jr_target(c.pc, imm8(c, m)) + 2 <= 0xFFFF,
                0x20 | 0x28 | 0x30 | 0x38 => if c.cond((op - 0x20) / 8) {
                    pc_room(c, 1) && jr_target(c.pc, imm8(c, m)) + 2 <= 0xFFFF
                } else {
                    pc_room(c, 2)
                },
                _ => pc_room(c, 1),
            }
        }
    } else if op < 0xC0 {
        pc_room(c, 1)
    } else if op % 8 == 7 {
        c.sp >= 2 && pc_room(c, 1)
    } else if op % 8 == 6 || op == 0xCB {
        pc_room(c, 2)
    } else {
        match op {
            0xC0 | 0xC8 | 0xD0 | 0xD8 => if c.cond((op - 0xC0) / 8) {
                c.sp + 2 <= 0xFFFF
            } else {
                pc_room(c, 1)
            },
            0xC9 | 0xD9 => c.sp + 2 <= 0xFFFF,
            0xC1 | 0xD1 | 0xE1 | 0xF1 => c.sp + 2 <= 0xFFFF && pc_room(c, 1),
            0xC2 | 0xCA | 0xD2 | 0xDA => if c.cond((op - 0xC2) / 8) {
                pc_room(c, 2)
            } else {
                pc_room(c, 3)
            },
            0xC3 => pc_room(c, 2),
            0xC4 | 0xCC | 0xD4 | 0xDC => if c.cond((op - 0xC4) / 8) {
                c.sp >= 2 && pc_room(c, 3)
            } else {
                pc_room(c, 3)
            },
            0xCD => c.sp >= 2 && pc_room(c, 3),
            0xC5 | 0xD5 | 0xE5 | 0xF5 => c.sp >= 2 && pc_room(c, 1),
            0xE0 | 0xF0 | 0xE8 | 0xF8 => pc_room(c, 2),
            0xEA | 0xFA => pc_room(c, 3),
            0xE2 | 0xF2 | 0xF3 | 0xFB | 0xF9 => pc_room(c, 1),
            _ => true,
        }
    }
}

/// The instruction at the program counter runs without overflowing: its address arithmetic
/// stays in range and the cycle count stays below 2^64.
pub open spec fn step_ok(c: CpuView, m: MmuView) -> bool {
    &&& addresses_in_range(c, m)
    &&& c.cycles + cycles_of(c, m) <= u64::MAX
}

/// The state after one instruction: what it does, and its cycles added to the count.
pub open spec fn step_spec(c: CpuView, m: MmuView) -> (CpuView, MmuView) {
    let (c1, m1) = execute(c, m);
    (CpuView { cycles: (c.cycles + cycles_of(c, m)) as u64, ..c1 }, m1)
}

} // verus!
