//! What each instruction does, stated directly over the registers, the flags and the bytes of
//! memory before and after one step. Every law assumes `step_ok`, the condition under which
//! `Cpu::step` runs.
use vstd::prelude::*;

use crate::mmu::MmuView;
use crate::semantics::{
    bit_mask, operand, sext16, shift, step_ok, step_spec, store_operand, CpuView,
};

verus! {

/// The little-endian word at `a`: the byte at `a` is the low byte.
pub open spec fn word_at(m: MmuView, a: int) -> int {
    m.read(a as u16) + 256 * m.read((a + 1) as u16)
}

/// The 8-bit operand that an opcode's three-bit field `i` names, in the order of the
/// instruction encoding: B, C, D, E, H, L, the byte at HL, A.
pub open spec fn named(c: CpuView, m: MmuView, i: int) -> u8 {
    if i == 0 {
        c.b
    } else if i == 1 {
        c.c
    } else if i == 2 {
        c.d
    } else if i == 3 {
        c.e
    } else if i == 4 {
        c.h
    } else if i == 5 {
        c.l
    } else if i == 6 {
        m.read((c.h * 256 + c.l) as u16)
    } else {
        c.a
    }
}

/// The processor and memory after the operand named by field `i` is given the value `v`.
pub open spec fn with_named(c: CpuView, m: MmuView, i: int, v: u8) -> (CpuView, MmuView) {
    if i == 0 {
        (CpuView { b: v, ..c }, m)
    } else if i == 1 {
        (CpuView { c: v, ..c }, m)
    } else if i == 2 {
        (CpuView { d: v, ..c }, m)
    } else if i == 3 {
        (CpuView { e: v, ..c }, m)
    } else if i == 4 {
        (CpuView { h: v, ..c }, m)
    } else if i == 5 {
        (CpuView { l: v, ..c }, m)
    } else if i == 6 {
        (c, m.write((c.h * 256 + c.l) as u16, v))
    } else {
        (CpuView { a: v, ..c }, m)
    }
}

/// The signed value of a relative offset byte.
pub open spec fn signed(e: u8) -> int {
    if e < 128 {
        e as int
    } else {
        e - 256
    }
}

/// NOP and STOP: nothing but the program counter (1 and 2 bytes) and 4 cycles.
pub proof fn law_nop_stop(c: CpuView, m: MmuView)
    requires
        m.read(c.pc) == 0x00 || m.read(c.pc) == 0x10,
        step_ok(c, m),
    ensures
        ({
            let (c2, m2) = step_spec(c, m);
            let n: int = if m.read(c.pc) == 0x00 { 1 } else { 2 };
            &&& c2 == (CpuView { pc: (c.pc + n) as u16, cycles: (c.cycles + 4) as u64, ..c })
            &&& m2 == m
        }),
{
}

/// LD BC/DE/HL/SP, n16: the pair gets the little-endian word after the opcode.
pub proof fn law_load_pair_immediate(c: CpuView, m: MmuView)
    requires
        m.read(c.pc) == 0x01 || m.read(c.pc) == 0x11 || m.read(c.pc) == 0x21 || m.read(c.pc)
            == 0x31,
        step_ok(c, m),
    ensures
        ({
            let (c2, m2) = step_spec(c, m);
            let op = m.read(c.pc);
            let lo = m.read((c.pc + 1) as u16);
            let hi = m.read((c.pc + 2) as u16);
            let c1 = CpuView { pc: (c.pc + 3) as u16, cycles: (c.cycles + 12) as u64, ..c };
            &&& op == 0x01 ==> c2 == (CpuView { b: hi, c: lo, ..c1 })
            &&& op == 0x11 ==> c2 == (CpuView { d: hi, e: lo, ..c1 })
            &&& op == 0x21 ==> c2 == (CpuView { h: hi, l: lo, ..c1 })
            &&& op == 0x31 ==> c2 == (CpuView { sp: (lo + 256 * hi) as u16, ..c1 })
            &&& m2 == m
        }),
{
}

/// LD [BC], A; LD [DE], A; LD [HL+], A; LD [HL-], A: A is stored at the pair's address;
/// HL then goes up or down by one, modulo 2^16.
pub proof fn law_store_a_indirect(c: CpuView, m: MmuView)
    requires
        m.read(c.pc) == 0x02 || m.read(c.pc) == 0x12 || m.read(c.pc) == 0x22 || m.read(c.pc)
            == 0x32,
        step_ok(c, m),
    ensures
        ({
            let (c2, m2) = step_spec(c, m);
            let op = m.read(c.pc);
            let hl = c.h * 256 + c.l;
            let c1 = CpuView { pc: (c.pc + 1) as u16, cycles: (c.cycles + 8) as u64, ..c };
            let up = (hl + 1) % 0x10000;
            let down = (hl + 0xFFFF) % 0x10000;
            &&& op == 0x02 ==> c2 == c1 && m2 == m.write((c.b * 256 + c.c) as u16, c.a)
            &&& op == 0x12 ==> c2 == c1 && m2 == m.write((c.d * 256 + c.e) as u16, c.a)
            &&& op == 0x22 ==> c2 == (CpuView { h: (up / 256) as u8, l: (up % 256) as u8, ..c1 })
                && m2 == m.write(hl as u16, c.a)
            &&& op == 0x32 ==> c2 == (CpuView {
                h: (down / 256) as u8,
                l: (down % 256) as u8,
                ..c1
            }) && m2 == m.write(hl as u16, c.a)
        }),
{
}

/// LD A, [BC]; LD A, [DE]; LD A, [HL+]; LD A, [HL-]: A gets the byte at the pair's address;
/// HL then goes up or down by one, modulo 2^16.
pub proof fn law_load_a_indirect(c: CpuView, m: MmuView)
    requires
        m.read(c.pc) == 0x0A || m.read(c.pc) == 0x1A || m.read(c.pc) == 0x2A || m.read(c.pc)
            == 0x3A,
        step_ok(c, m),
    ensures
        ({
            let (c2, m2) = step_spec(c, m);
            let op = m.read(c.pc);
            let hl = c.h * 256 + c.l;
            let c1 = CpuView { pc: (c.pc + 1) as u16, cycles: (c.cycles + 8) as u64, ..c };
            let up = (hl + 1) % 0x10000;
            let down = (hl + 0xFFFF) % 0x10000;
            &&& op == 0x0A ==> c2 == (CpuView { a: m.read((c.b * 256 + c.c) as u16), ..c1 })
            &&& op == 0x1A ==> c2 == (CpuView { a: m.read((c.d * 256 + c.e) as u16), ..c1 })
            &&& op == 0x2A ==> c2 == (CpuView {
                a: m.read(hl as u16),
                h: (up / 256) as u8,
                l: (up % 256) as u8,
                ..c1
            })
            &&& op == 0x3A ==> c2 == (CpuView {
                a: m.read(hl as u16),
                h: (down / 256) as u8,
                l: (down % 256) as u8,
                ..c1
            })
            &&& m2 == m
        }),
{
}

/// INC rr and DEC rr: the pair goes up or down by one, modulo 2^16, with no flag touched;
/// INC BC takes 4 cycles, the others 8.
pub proof fn law_inc_dec_pair(c: CpuView, m: MmuView)
    requires
        m.read(c.pc) % 8 == 3 && m.read(c.pc) < 0x40,
        step_ok(c, m),
    ensures
        ({
            let (c2, m2) = step_spec(c, m);
            let op = m.read(c.pc);
            let d: int = if op % 16 == 3 { 1 } else { 0xFFFF };
            let k: int = if op == 0x03 { 4 } else { 8 };
            let c1 = CpuView { pc: (c.pc + 1) as u16, cycles: (c.cycles + k) as u64, ..c };
            let bc = (c.b * 256 + c.c + d) % 0x10000;
            let de = (c.d * 256 + c.e + d) % 0x10000;
            let hl = (c.h * 256 + c.l + d) % 0x10000;
            &&& (op == 0x03 || op == 0x0B) ==> c2 == (CpuView {
                b: (bc / 256) as u8,
                c: (bc % 256) as u8,
                ..c1
            })
            &&& (op == 0x13 || op == 0x1B) ==> c2 == (CpuView {
                d: (de / 256) as u8,
                e: (de % 256) as u8,
                ..c1
            })
            &&& (op == 0x23 || op == 0x2B) ==> c2 == (CpuView {
                h: (hl / 256) as u8,
                l: (hl % 256) as u8,
                ..c1
            })
            &&& (op == 0x33 || op == 0x3B) ==> c2 == (CpuView {
                sp: ((c.sp + d) % 0x10000) as u16,
                ..c1
            })
            &&& m2 == m
        }),
{
    let op = m.read(c.pc);
    if op == 0x03 {
    } else if op == 0x13 {
    } else if op == 0x23 {
    } else if op == 0x33 {
    } else if op == 0x0B {
    } else if op == 0x1B {
    } else if op == 0x2B {
    } else {
    }
}

/// ADD HL, rr: HL gets HL + rr modulo 2^16; N is cleared, H is the carry out of bit 11,
/// C the carry out of bit 15, Z is kept.
pub proof fn law_add_hl(c: CpuView, m: MmuView)
    requires
        m.read(c.pc) == 0x09 || m.read(c.pc) == 0x19 || m.read(c.pc) == 0x29 || m.read(c.pc)
            == 0x39,
        step_ok(c, m),
    ensures
        ({
            let (c2, m2) = step_spec(c, m);
            let op = m.read(c.pc);
            let hl = c.h * 256 + c.l;
            let x: int = if op == 0x09 {
                c.b * 256 + c.c
            } else if op == 0x19 {
                c.d * 256 + c.e
            } else if op == 0x29 {
                hl
            } else {
                c.sp as int
            };
            let sum = (hl + x) % 0x10000;
            &&& c2 == (CpuView {
                h: (sum / 256) as u8,
                l: (sum % 256) as u8,
                flag_n: false,
                flag_h: hl % 4096 + x % 4096 > 4095,
                flag_c: hl + x > 0xFFFF,
                pc: (c.pc + 1) as u16,
                cycles: (c.cycles + 8) as u64,
                ..c
            })
            &&& m2 == m
        }),
{
}

/// RLCA, RRCA, RLA, RRA: A rotated one bit left or right, through the carry for RLA and RRA;
/// C gets the bit rotated out; Z, N and H are cleared.
pub proof fn law_rotate_a(c: CpuView, m: MmuView)
    requires
        m.read(c.pc) == 0x07 || m.read(c.pc) == 0x0F || m.read(c.pc) == 0x17 || m.read(c.pc)
            == 0x1F,
        step_ok(c, m),
    ensures
        ({
            let (c2, m2) = step_spec(c, m);
            let op = m.read(c.pc);
            let a = c.a as int;
            let cin: int = if c.flag_c { 1 } else { 0 };
            let r: int = if op == 0x07 {
                (2 * a) % 256 + a / 128
            } else if op == 0x0F {
                a / 2 + 128 * (a % 2)
            } else if op == 0x17 {
                (2 * a) % 256 + cin
            } else {
                a / 2 + 128 * cin
            };
            let out = if op == 0x07 || op == 0x17 { a >= 128 } else { a % 2 == 1 };
            &&& c2 == (CpuView {
                a: r as u8,
                flag_z: false,
                flag_n: false,
                flag_h: false,
                flag_c: out,
                pc: (c.pc + 1) as u16,
                cycles: (c.cycles + 4) as u64,
                ..c
            })
            &&& m2 == m
        }),
{
}

/// LD [a16], SP: SP is stored, low byte first, at the little-endian address after the opcode.
pub proof fn law_store_sp(c: CpuView, m: MmuView)
    requires
        m.read(c.pc) == 0x08,
        step_ok(c, m),
    ensures
        ({
            let (c2, m2) = step_spec(c, m);
            let addr = word_at(m, c.pc + 1);
            &&& c2 == (CpuView { pc: (c.pc + 3) as u16, cycles: (c.cycles + 20) as u64, ..c })
            &&& m2 == m.write(addr as u16, (c.sp % 256) as u8).write(
                (addr + 1) as u16,
                (c.sp / 256) as u8,
            )
        }),
{
}

proof fn lemma_jump_target(pc: u16, e: u8)
    ensures
        (pc + sext16(e)) % 0x10000 + 2 <= 0xFFFF ==> (pc + sext16(e)) % 0x10000 + 2 == (pc + 2
            + signed(e)) % 0x10000,
{
    if e >= 128 {
        assert((pc + e + 0xFF00) % 0x10000 == (pc + e - 256 + 0x10000) % 0x10000);
    }
}

/// JR e8 and JR NZ/Z/NC/C, e8: when taken (always for JR, else on its condition), the program
/// counter moves to the end of the instruction plus the signed offset, modulo 2^16, in 12 cycles;
/// otherwise it moves past the two bytes in 8 cycles.
pub proof fn law_relative_jump(c: CpuView, m: MmuView)
    requires
        m.read(c.pc) == 0x18 || m.read(c.pc) == 0x20 || m.read(c.pc) == 0x28 || m.read(c.pc)
            == 0x30 || m.read(c.pc) == 0x38,
        step_ok(c, m),
    ensures
        ({
            let (c2, m2) = step_spec(c, m);
            let op = m.read(c.pc);
            let taken = op == 0x18 || (op == 0x20 && !c.flag_z) || (op == 0x28 && c.flag_z) || (op
                == 0x30 && !c.flag_c) || (op == 0x38 && c.flag_c);
            let target = (c.pc + 2 + signed(m.read((c.pc + 1) as u16))) % 0x10000;
            &&& taken ==> c2 == (CpuView {
                pc: target as u16,
                cycles: (c.cycles + 12) as u64,
                ..c
            })
            &&& !taken ==> c2 == (CpuView {
                pc: (c.pc + 2) as u16,
                cycles: (c.cycles + 8) as u64,
                ..c
            })
            &&& m2 == m
        }),
{
    lemma_jump_target(c.pc, m.read((c.pc + 1) as u16));
    let op = m.read(c.pc);
    if op == 0x18 {
    } else if op == 0x20 {
    } else if op == 0x28 {
    } else if op == 0x30 {
    } else {
    }
}

/// DAA: A is adjusted by 0x06 for a low-digit correction and by 0x60 for a high-digit one,
/// upwards after an addition (N clear) and downwards after a subtraction (N set), modulo 256;
/// C is set when the high correction applies, Z from the result, H is cleared, N is kept.
pub proof fn law_daa(c: CpuView, m: MmuView)
    requires
        m.read(c.pc) == 0x27,
        step_ok(c, m),
    ensures
        ({
            let (c2, m2) = step_spec(c, m);
            let lo = c.flag_h || (!c.flag_n && c.a % 16 > 9);
            let hi = c.flag_c || (!c.flag_n && c.a > 0x99);
            let adj: int = (if lo { 6int } else { 0 }) + (if hi { 0x60int } else { 0 });
            let r: int = if c.flag_n { (c.a - adj + 256) % 256 } else { (c.a + adj) % 256 };
            &&& c2 == (CpuView {
                a: r as u8,
                flag_z: r == 0,
                flag_h: false,
                flag_c: hi,
                pc: (c.pc + 1) as u16,
                cycles: (c.cycles + 4) as u64,
                ..c
            })
            &&& m2 == m
        }),
{
}

/// CPL complements A and sets N and H; SCF sets C; CCF flips C; SCF and CCF clear N and H.
pub proof fn law_flag_ops(c: CpuView, m: MmuView)
    requires
        m.read(c.pc) == 0x2F || m.read(c.pc) == 0x37 || m.read(c.pc) == 0x3F,
        step_ok(c, m),
    ensures
        ({
            let (c2, m2) = step_spec(c, m);
            let op = m.read(c.pc);
            let c1 = CpuView { pc: (c.pc + 1) as u16, cycles: (c.cycles + 4) as u64, ..c };
            &&& op == 0x2F ==> c2 == (CpuView {
                a: (255 - c.a) as u8,
                flag_n: true,
                flag_h: true,
                ..c1
            })
            &&& op == 0x37 ==> c2 == (CpuView { flag_n: false, flag_h: false, flag_c: true, ..c1 })
            &&& op == 0x3F ==> c2 == (CpuView {
                flag_n: false,
                flag_h: false,
                flag_c: !c.flag_c,
                ..c1
            })
            &&& m2 == m
        }),
{
}

/// INC r and DEC r, with r named by bits 3..5 and [HL] for 6: the operand goes up or down by one
/// modulo 256; Z from the result, N set for DEC only, H when the low nibble wraps; C is kept.
pub proof fn law_inc_dec_8(c: CpuView, m: MmuView)
    requires
        m.read(c.pc) < 0x40,
        m.read(c.pc) % 8 == 4 || m.read(c.pc) % 8 == 5,
        step_ok(c, m),
    ensures
        ({
            let (c2, m2) = step_spec(c, m);
            let op = m.read(c.pc);
            let i = (op / 8) as int;
            let v = named(c, m, i);
            let inc = op % 8 == 4;
            let r: int = if inc { (v + 1) % 256 } else { (v + 255) % 256 };
            let k: int = if i == 6 { 12 } else { 4 };
            let c1 = CpuView {
                flag_z: r == 0,
                flag_n: !inc,
                flag_h: if inc { r % 16 == 0 } else { r % 16 == 15 },
                pc: (c.pc + 1) as u16,
                cycles: (c.cycles + k) as u64,
                ..c
            };
            (c2, m2) == with_named(c1, m, i, r as u8)
        }),
{
    let op = m.read(c.pc);
    assert(op / 8 < 8);
}

/// LD r, n8 and LD [HL], n8: the operand gets the byte after the opcode.
pub proof fn law_load_immediate_8(c: CpuView, m: MmuView)
    requires
        m.read(c.pc) < 0x40,
        m.read(c.pc) % 8 == 6,
        step_ok(c, m),
    ensures
        ({
            let (c2, m2) = step_spec(c, m);
            let i = (m.read(c.pc) / 8) as int;
            let k: int = if i == 6 { 12 } else { 8 };
            let c1 = CpuView { pc: (c.pc + 2) as u16, cycles: (c.cycles + k) as u64, ..c };
            (c2, m2) == with_named(c1, m, i, m.read((c.pc + 1) as u16))
        }),
{
    assert(m.read(c.pc) / 8 < 8);
}

/// LD r, r' for 0x40..=0x7F but HALT: the destination named by bits 3..5 gets the source named
/// by bits 0..2; a load from [HL] takes 4 cycles, a store to [HL] 8. HALT only moves on.
pub proof fn law_register_load(c: CpuView, m: MmuView)
    requires
        0x40 <= m.read(c.pc) < 0x80,
        step_ok(c, m),
    ensures
        ({
            let (c2, m2) = step_spec(c, m);
            let op = m.read(c.pc);
            let dst = ((op - 0x40) / 8) as int;
            let src = (op % 8) as int;
            let k: int = if dst == 6 { 8 } else { 4 };
            let c1 = CpuView { pc: (c.pc + 1) as u16, cycles: (c.cycles + k) as u64, ..c };
            &&& op == 0x76 ==> c2 == (CpuView {
                pc: (c.pc + 1) as u16,
                cycles: (c.cycles + 8) as u64,
                ..c
            }) && m2 == m
            &&& op != 0x76 ==> (c2, m2) == with_named(c1, m, dst, named(c, m, src))
        }),
{
}

/// The eight operations on A with an operand `v`, by their index `k`: ADD, ADC, SUB, SBC, AND,
/// XOR, OR, CP, stated over A, the carry and `v` as numbers.
pub open spec fn alu_law(c: CpuView, c2: CpuView, k: int, v: u8) -> bool {
    let a = c.a as int;
    let cin: int = if c.flag_c { 1 } else { 0 };
    &&& k == 0 ==> c2.a == (a + v) % 256 && c2.flag_c == (a + v > 255) && c2.flag_h == (a % 16 + v
        % 16 > 15) && !c2.flag_n
    &&& k == 1 ==> c2.a == (a + v + cin) % 256 && c2.flag_c == (a + v + cin > 255) && c2.flag_h
        == (a % 16 + v % 16 + cin > 15) && !c2.flag_n
    &&& k == 2 ==> c2.a == (a - v + 256) % 256 && c2.flag_c == (a < v) && c2.flag_h == (a % 16 < v
        % 16) && c2.flag_n
    &&& k == 3 ==> c2.a == (a - v - cin + 512) % 256 && c2.flag_c == (a < v + cin) && c2.flag_h
        == (a % 16 < v % 16 + cin) && c2.flag_n
    &&& k == 4 ==> c2.a == (c.a & v) && !c2.flag_c && c2.flag_h && !c2.flag_n
    &&& k == 5 ==> c2.a == (c.a ^ v) && !c2.flag_c && !c2.flag_h && !c2.flag_n
    &&& k == 6 ==> c2.a == (c.a | v) && !c2.flag_c && !c2.flag_h && !c2.flag_n
    &&& k == 7 ==> c2.a == c.a && c2.flag_c == (a < v) && c2.flag_h == (a % 16 < v % 16)
        && c2.flag_n && c2.flag_z == (a == v)
    &&& k != 7 ==> c2.flag_z == (c2.a == 0)
}

/// 0x80..=0xBF: the operation named by bits 3..5 on A and the operand named by bits 0..2;
/// nothing but A and the flags changes.
pub proof fn law_alu_register(c: CpuView, m: MmuView)
    requires
        0x80 <= m.read(c.pc) < 0xC0,
        step_ok(c, m),
    ensures
        ({
            let (c2, m2) = step_spec(c, m);
            let op = m.read(c.pc);
            let src = (op % 8) as int;
            let k: int = if src == 6 { 8 } else { 4 };
            &&& alu_law(c, c2, ((op - 0x80) / 8) as int, named(c, m, src))
            &&& c2 == (CpuView {
                a: c2.a,
                flag_z: c2.flag_z,
                flag_n: c2.flag_n,
                flag_h: c2.flag_h,
                flag_c: c2.flag_c,
                pc: (c.pc + 1) as u16,
                cycles: (c.cycles + k) as u64,
                ..c
            })
            &&& m2 == m
        }),
{
}

/// The operations on A with the byte after the opcode (0xC6, 0xCE, ..., 0xFE): two bytes long;
/// AND and CP take 4 cycles, the others 8.
pub proof fn law_alu_immediate(c: CpuView, m: MmuView)
    requires
        m.read(c.pc) >= 0xC0,
        m.read(c.pc) % 8 == 6,
        step_ok(c, m),
    ensures
        ({
            let (c2, m2) = step_spec(c, m);
            let op = m.read(c.pc);
            let k: int = if op == 0xE6 || op == 0xFE { 4 } else { 8 };
            &&& alu_law(c, c2, ((op - 0xC0) / 8) as int, m.read((c.pc + 1) as u16))
            &&& c2 == (CpuView {
                a: c2.a,
                flag_z: c2.flag_z,
                flag_n: c2.flag_n,
                flag_h: c2.flag_h,
                flag_c: c2.flag_c,
                pc: (c.pc + 2) as u16,
                cycles: (c.cycles + k) as u64,
                ..c
            })
            &&& m2 == m
        }),
{
}

/// RET, RETI and RET NZ/Z/NC/C: when taken (always for RET and RETI, else on the condition), the
/// program counter gets the little-endian word at SP and SP goes up by two, RETI also setting IME;
/// otherwise the program counter moves past the opcode.
pub proof fn law_return(c: CpuView, m: MmuView)
    requires
        m.read(c.pc) == 0xC0 || m.read(c.pc) == 0xC8 || m.read(c.pc) == 0xD0 || m.read(c.pc)
            == 0xD8 || m.read(c.pc) == 0xC9 || m.read(c.pc) == 0xD9,
        step_ok(c, m),
    ensures
        ({
            let (c2, m2) = step_spec(c, m);
            let op = m.read(c.pc);
            let taken = op == 0xC9 || op == 0xD9 || (op == 0xC0 && !c.flag_z) || (op == 0xC8
                && c.flag_z) || (op == 0xD0 && !c.flag_c) || (op == 0xD8 && c.flag_c);
            let k: int = if op == 0xC9 || op == 0xD9 { 16 } else { 20 };
            &&& taken ==> c2 == (CpuView {
                pc: word_at(m, c.sp as int) as u16,
                sp: (c.sp + 2) as u16,
                ime: c.ime || op == 0xD9,
                cycles: (c.cycles + k) as u64,
                ..c
            })
            &&& !taken ==> c2 == (CpuView {
                pc: (c.pc + 1) as u16,
                cycles: (c.cycles + 8) as u64,
                ..c
            })
            &&& m2 == m
        }),
{
    let op = m.read(c.pc);
    if op == 0xC0 {
    } else if op == 0xC8 {
    } else if op == 0xD0 {
    } else if op == 0xD8 {
    } else if op == 0xC9 {
    } else {
    }
}

/// POP BC/DE/HL/AF: the low register gets the byte at SP, the high register the byte at SP + 1,
/// and SP goes up by two; for AF the flags come from bits 7, 6, 5, 4 of the byte at SP.
pub proof fn law_pop(c: CpuView, m: MmuView)
    requires
        m.read(c.pc) == 0xC1 || m.read(c.pc) == 0xD1 || m.read(c.pc) == 0xE1 || m.read(c.pc)
            == 0xF1,
        step_ok(c, m),
    ensures
        ({
            let (c2, m2) = step_spec(c, m);
            let op = m.read(c.pc);
            let lo = m.read(c.sp);
            let hi = m.read((c.sp + 1) as u16);
            let c1 = CpuView {
                sp: (c.sp + 2) as u16,
                pc: (c.pc + 1) as u16,
                cycles: (c.cycles + 12) as u64,
                ..c
            };
            &&& op == 0xC1 ==> c2 == (CpuView { b: hi, c: lo, ..c1 })
            &&& op == 0xD1 ==> c2 == (CpuView { d: hi, e: lo, ..c1 })
            &&& op == 0xE1 ==> c2 == (CpuView { h: hi, l: lo, ..c1 })
            &&& op == 0xF1 ==> c2 == (CpuView {
                a: hi,
                flag_z: lo >= 128,
                flag_n: (lo / 64) % 2 == 1,
                flag_h: (lo / 32) % 2 == 1,
                flag_c: (lo / 16) % 2 == 1,
                ..c1
            })
            &&& m2 == m
        }),
{
}

/// JP a16, JP NZ/Z/NC/C, a16 and JP HL: when taken, the program counter gets the little-endian
/// word after the opcode (HL for JP HL); otherwise it moves past the three bytes.
pub proof fn law_jump(c: CpuView, m: MmuView)
    requires
        m.read(c.pc) == 0xC2 || m.read(c.pc) == 0xCA || m.read(c.pc) == 0xD2 || m.read(c.pc)
            == 0xDA || m.read(c.pc) == 0xC3 || m.read(c.pc) == 0xE9,
        step_ok(c, m),
    ensures
        ({
            let (c2, m2) = step_spec(c, m);
            let op = m.read(c.pc);
            let taken = op == 0xC3 || (op == 0xC2 && !c.flag_z) || (op == 0xCA && c.flag_z) || (op
                == 0xD2 && !c.flag_c) || (op == 0xDA && c.flag_c);
            &&& op == 0xE9 ==> c2 == (CpuView {
                pc: (c.h * 256 + c.l) as u16,
                cycles: (c.cycles + 4) as u64,
                ..c
            })
            &&& taken ==> c2 == (CpuView {
                pc: word_at(m, c.pc + 1) as u16,
                cycles: (c.cycles + 16) as u64,
                ..c
            })
            &&& op != 0xE9 && !taken ==> c2 == (CpuView {
                pc: (c.pc + 3) as u16,
                cycles: (c.cycles + 12) as u64,
                ..c
            })
            &&& m2 == m
        }),
{
    let op = m.read(c.pc);
    if op == 0xC2 {
    } else if op == 0xCA {
    } else if op == 0xD2 {
    } else if op == 0xDA {
    } else if op == 0xC3 {
    } else {
    }
}

/// CALL a16 and CALL NZ/Z/NC/C, a16: when taken, the address of the next instruction (PC + 3) is
/// pushed, low byte at SP - 2 and high byte at SP - 1, SP goes down by two, and the program counter
/// gets the little-endian word after the opcode, as memory holds it after the push; otherwise the
/// program counter moves past the three bytes.
pub proof fn law_call(c: CpuView, m: MmuView)
    requires
        m.read(c.pc) == 0xC4 || m.read(c.pc) == 0xCC || m.read(c.pc) == 0xD4 || m.read(c.pc)
            == 0xDC || m.read(c.pc) == 0xCD,
        step_ok(c, m),
    ensures
        ({
            let (c2, m2) = step_spec(c, m);
            let op = m.read(c.pc);
            let taken = op == 0xCD || (op == 0xC4 && !c.flag_z) || (op == 0xCC && c.flag_z) || (op
                == 0xD4 && !c.flag_c) || (op == 0xDC && c.flag_c);
            let ret = c.pc + 3;
            let pushed = m.write((c.sp - 2) as u16, (ret % 256) as u8).write(
                (c.sp - 1) as u16,
                (ret / 256) as u8,
            );
            &&& taken ==> c2 == (CpuView {
                pc: word_at(pushed, c.pc + 1) as u16,
                sp: (c.sp - 2) as u16,
                cycles: (c.cycles + 24) as u64,
                ..c
            }) && m2 == pushed
            &&& !taken ==> c2 == (CpuView {
                pc: (c.pc + 3) as u16,
                cycles: (c.cycles + 12) as u64,
                ..c
            }) && m2 == m
        }),
{
    let op = m.read(c.pc);
    if op == 0xC4 {
    } else if op == 0xCC {
    } else if op == 0xD4 {
    } else if op == 0xDC {
    } else {
    }
}

/// PUSH BC/DE/HL/AF: the high register is stored at SP - 1, then the low one at SP - 2, and SP
/// goes down by two; for AF the low byte holds Z, N, H, C in bits 7, 6, 5, 4.
pub proof fn law_push(c: CpuView, m: MmuView)
    requires
        m.read(c.pc) == 0xC5 || m.read(c.pc) == 0xD5 || m.read(c.pc) == 0xE5 || m.read(c.pc)
            == 0xF5,
        step_ok(c, m),
    ensures
        ({
            let (c2, m2) = step_spec(c, m);
            let op = m.read(c.pc);
            let hi = if op == 0xC5 {
                c.b
            } else if op == 0xD5 {
                c.d
            } else if op == 0xE5 {
                c.h
            } else {
                c.a
            };
            let f: int = (if c.flag_z { 128int } else { 0 }) + (if c.flag_n { 64int } else { 0 })
                + (if c.flag_h { 32int } else { 0 }) + (if c.flag_c { 16int } else { 0 });
            let lo: int = if op == 0xC5 {
                c.c as int
            } else if op == 0xD5 {
                c.e as int
            } else if op == 0xE5 {
                c.l as int
            } else {
                f
            };
            &&& c2 == (CpuView {
                sp: (c.sp - 2) as u16,
                pc: (c.pc + 1) as u16,
                cycles: (c.cycles + 16) as u64,
                ..c
            })
            &&& m2 == m.write((c.sp - 1) as u16, hi).write((c.sp - 2) as u16, lo as u8)
        }),
{
}

/// RST n: the address of the next instruction is pushed as CALL pushes it, and the program
/// counter jumps to n = the opcode minus 0xC7 (0x00, 0x08, ..., 0x38).
pub proof fn law_restart(c: CpuView, m: MmuView)
    requires
        m.read(c.pc) >= 0xC0,
        m.read(c.pc) % 8 == 7,
        step_ok(c, m),
    ensures
        ({
            let (c2, m2) = step_spec(c, m);
            let ret = c.pc + 1;
            &&& c2 == (CpuView {
                pc: (m.read(c.pc) - 0xC7) as u16,
                sp: (c.sp - 2) as u16,
                cycles: (c.cycles + 16) as u64,
                ..c
            })
            &&& m2 == m.write((c.sp - 2) as u16, (ret % 256) as u8).write(
                (c.sp - 1) as u16,
                (ret / 256) as u8,
            )
        }),
{
}

/// LDH and the absolute loads: LDH [a8], A and LDH [C], A store A at 0xFF00 plus the byte after the
/// opcode or C; LDH A, [a8] and LDH A, [C] load A from there; LD [a16], A and LD A, [a16] store and
/// load A at the little-endian address after the opcode.
pub proof fn law_direct_loads(c: CpuView, m: MmuView)
    requires
        m.read(c.pc) == 0xE0 || m.read(c.pc) == 0xE2 || m.read(c.pc) == 0xF0 || m.read(c.pc)
            == 0xF2 || m.read(c.pc) == 0xEA || m.read(c.pc) == 0xFA,
        step_ok(c, m),
    ensures
        ({
            let (c2, m2) = step_spec(c, m);
            let op = m.read(c.pc);
            let n = m.read((c.pc + 1) as u16);
            let a16 = word_at(m, c.pc + 1);
            &&& op == 0xE0 ==> c2 == (CpuView {
                pc: (c.pc + 2) as u16,
                cycles: (c.cycles + 12) as u64,
                ..c
            }) && m2 == m.write((0xFF00 + n) as u16, c.a)
            &&& op == 0xE2 ==> c2 == (CpuView {
                pc: (c.pc + 1) as u16,
                cycles: (c.cycles + 8) as u64,
                ..c
            }) && m2 == m.write((0xFF00 + c.c) as u16, c.a)
            &&& op == 0xF0 ==> c2 == (CpuView {
                a: m.read((0xFF00 + n) as u16),
                pc: (c.pc + 2) as u16,
                cycles: (c.cycles + 12) as u64,
                ..c
            }) && m2 == m
            &&& op == 0xF2 ==> c2 == (CpuView {
                a: m.read((0xFF00 + c.c) as u16),
                pc: (c.pc + 1) as u16,
                cycles: (c.cycles + 8) as u64,
                ..c
            }) && m2 == m
            &&& op == 0xEA ==> c2 == (CpuView {
                pc: (c.pc + 3) as u16,
                cycles: (c.cycles + 16) as u64,
                ..c
            }) && m2 == m.write(a16 as u16, c.a)
            &&& op == 0xFA ==> c2 == (CpuView {
                a: m.read(a16 as u16),
                pc: (c.pc + 3) as u16,
                cycles: (c.cycles + 16) as u64,
                ..c
            }) && m2 == m
        }),
{
}

/// ADD SP, e8 and LD HL, SP + e8: SP plus the signed offset, modulo 2^16, goes to SP or HL;
/// Z and N are cleared, H is the carry out of bit 3 and C the carry out of bit 7 of the low bytes.
pub proof fn law_stack_offset(c: CpuView, m: MmuView)
    requires
        m.read(c.pc) == 0xE8 || m.read(c.pc) == 0xF8,
        step_ok(c, m),
    ensures
        ({
            let (c2, m2) = step_spec(c, m);
            let op = m.read(c.pc);
            let e = m.read((c.pc + 1) as u16);
            let r = (c.sp + signed(e) + 0x10000) % 0x10000;
            let c1 = CpuView {
                flag_z: false,
                flag_n: false,
                flag_h: c.sp % 16 + e % 16 > 15,
                flag_c: c.sp % 256 + e > 255,
                pc: (c.pc + 2) as u16,
                ..c
            };
            &&& op == 0xE8 ==> c2 == (CpuView {
                sp: r as u16,
                cycles: (c.cycles + 16) as u64,
                ..c1
            })
            &&& op == 0xF8 ==> c2 == (CpuView {
                h: (r / 256) as u8,
                l: (r % 256) as u8,
                cycles: (c.cycles + 12) as u64,
                ..c1
            })
            &&& m2 == m
        }),
{
    let e = m.read((c.pc + 1) as u16);
    assert(sext16(e) % 16 == e % 16 && sext16(e) % 256 == e as int);
    assert((c.sp + sext16(e)) % 0x10000 == (c.sp + signed(e) + 0x10000) % 0x10000);
}

/// LD SP, HL copies HL into SP; DI clears IME and EI sets it.
pub proof fn law_sp_hl_and_interrupts(c: CpuView, m: MmuView)
    requires
        m.read(c.pc) == 0xF9 || m.read(c.pc) == 0xF3 || m.read(c.pc) == 0xFB,
        step_ok(c, m),
    ensures
        ({
            let (c2, m2) = step_spec(c, m);
            let op = m.read(c.pc);
            &&& op == 0xF9 ==> c2 == (CpuView {
                sp: (c.h * 256 + c.l) as u16,
                pc: (c.pc + 1) as u16,
                cycles: (c.cycles + 8) as u64,
                ..c
            })
            &&& op == 0xF3 ==> c2 == (CpuView {
                ime: false,
                pc: (c.pc + 1) as u16,
                cycles: (c.cycles + 4) as u64,
                ..c
            })
            &&& op == 0xFB ==> c2 == (CpuView {
                ime: true,
                pc: (c.pc + 1) as u16,
                cycles: (c.cycles + 4) as u64,
                ..c
            })
            &&& m2 == m
        }),
{
}

proof fn lemma_single_bit(y: u8)
    requires
        y < 8,
    ensures
        bit_mask(y as int) == 1u8 << y,
{
    assert(1u8 << 0u8 == 1 && 1u8 << 1u8 == 2 && 1u8 << 2u8 == 4 && 1u8 << 3u8 == 8 && 1u8 << 4u8
        == 16 && 1u8 << 5u8 == 32 && 1u8 << 6u8 == 64 && 1u8 << 7u8 == 128) by (bit_vector);
}

/// The rotations and shifts of the 0xCB page as numbers, by `y`: RLC, RRC, RL, RR, SLA, SRA,
/// SWAP, SRL of `v` with carry-in `cin`; the result and the bit shifted out.
pub open spec fn shifted(y: int, v: u8, cin: int) -> (int, bool) {
    if y == 0 {
        ((2 * v) % 256 + v / 128, v >= 128)
    } else if y == 1 {
        (v / 2 + 128 * (v % 2), v % 2 == 1)
    } else if y == 2 {
        ((2 * v) % 256 + cin, v >= 128)
    } else if y == 3 {
        (v / 2 + 128 * cin, v % 2 == 1)
    } else if y == 4 {
        ((2 * v) % 256, v >= 128)
    } else if y == 5 {
        (v / 2 + 128 * (v / 128), v % 2 == 1)
    } else if y == 6 {
        (16 * (v % 16) + v / 16, false)
    } else {
        ((v / 2) as int, v % 2 == 1)
    }
}

/// The 0xCB page, second byte `00 yyy zzz`: RLC, RRC, RL, RR, SLA, SRA, SWAP, SRL by `y` on the
/// operand named by `z` (see `shifted`); Z from the result, N and H cleared, C the bit shifted
/// out. Two bytes; 8 cycles on a register, 16 on [HL].
pub proof fn law_prefixed_shift(c: CpuView, m: MmuView)
    requires
        m.read(c.pc) == 0xCB,
        m.read((c.pc + 1) as u16) < 0x40,
        step_ok(c, m),
    ensures
        ({
            let (c2, m2) = step_spec(c, m);
            let cb = m.read((c.pc + 1) as u16);
            let y = (cb / 8) as int;
            let z = (cb % 8) as int;
            let v = named(c, m, z);
            let k: int = if z != 6 { 8 } else { 16 };
            let (r, out) = shifted(y, v, if c.flag_c { 1 } else { 0 });
            (c2, m2) == with_named(
                CpuView {
                    flag_z: r == 0,
                    flag_n: false,
                    flag_h: false,
                    flag_c: out,
                    pc: (c.pc + 2) as u16,
                    cycles: (c.cycles + k) as u64,
                    ..c
                },
                m,
                z,
                r as u8,
            )
        }),
{
    let cb = m.read((c.pc + 1) as u16);
    assert(cb / 64 == 0 && (cb / 8) % 8 == cb / 8);
    let y = (cb / 8) as int;
    let z = (cb % 8) as int;
    let cin: int = if c.flag_c { 1 } else { 0 };
    let v = named(c, m, z);
    lemma_shift_agrees(y, v, cin);
    assert(v == operand(c, m, z));
    let (r, out) = shift(y, v, c.carry());
    let k: int = if z != 6 { 8 } else { 16 };
    let c2 = CpuView { flag_z: r == 0, flag_n: false, flag_h: false, flag_c: out, ..c.step_pc(2) };
    assert(step_spec(c, m) == (
        CpuView { cycles: (c.cycles + k) as u64, ..store_operand(c2, m, z, r).0 },
        store_operand(c2, m, z, r).1,
    ));
}

proof fn lemma_shift_agrees(y: int, v: u8, cin: int)
    requires
        0 <= y < 8,
        0 <= cin <= 1,
    ensures
        shift(y, v, cin).0 == shifted(y, v, cin).0,
        shift(y, v, cin).1 == shifted(y, v, cin).1,
{
}

/// The 0xCB page, second byte `01 yyy zzz`, BIT y: Z is set when bit y of the operand named by
/// `z` is 0; N cleared, H set, C kept; nothing else changes. 8 cycles, 12 on [HL].
pub proof fn law_prefixed_bit(c: CpuView, m: MmuView)
    requires
        m.read(c.pc) == 0xCB,
        0x40 <= m.read((c.pc + 1) as u16) < 0x80,
        step_ok(c, m),
    ensures
        ({
            let (c2, m2) = step_spec(c, m);
            let cb = m.read((c.pc + 1) as u16);
            let y = (cb / 8) % 8;
            let z = (cb % 8) as int;
            let v = named(c, m, z);
            let k: int = if z != 6 { 8 } else { 12 };
            &&& c2 == (CpuView {
                flag_z: v & (1u8 << (y as u8)) == 0,
                flag_n: false,
                flag_h: true,
                pc: (c.pc + 2) as u16,
                cycles: (c.cycles + k) as u64,
                ..c
            })
            &&& m2 == m
        }),
{
    let cb = m.read((c.pc + 1) as u16);
    assert(cb / 64 == 1);
    lemma_single_bit(((cb / 8) % 8) as u8);
}

/// The 0xCB page, second byte `1s yyy zzz`: RES y (s = 0) clears and SET y (s = 1) sets bit y of
/// the operand named by `z`; no flag changes. 8 cycles, 16 on [HL].
pub proof fn law_prefixed_res_set(c: CpuView, m: MmuView)
    requires
        m.read(c.pc) == 0xCB,
        m.read((c.pc + 1) as u16) >= 0x80,
        step_ok(c, m),
    ensures
        ({
            let (c2, m2) = step_spec(c, m);
            let cb = m.read((c.pc + 1) as u16);
            let y = (cb / 8) % 8;
            let z = (cb % 8) as int;
            let v = named(c, m, z);
            let k: int = if z != 6 { 8 } else { 16 };
            let c1 = CpuView { pc: (c.pc + 2) as u16, cycles: (c.cycles + k) as u64, ..c };
            &&& cb < 0xC0 ==> (c2, m2) == with_named(c1, m, z, v & !(1u8 << (y as u8)))
            &&& cb >= 0xC0 ==> (c2, m2) == with_named(c1, m, z, v | (1u8 << (y as u8)))
        }),
{
    let cb = m.read((c.pc + 1) as u16);
    assert(cb < 0xC0 ==> cb / 64 == 2);
    assert(cb >= 0xC0 ==> cb / 64 == 3);
    lemma_single_bit(((cb / 8) % 8) as u8);
}

} // verus!
