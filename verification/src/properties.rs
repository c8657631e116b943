use vstd::prelude::*;

use crate::mmu::{
    is_storage, lemma_read_after_write, lemma_read_word_after_write_word,
    lemma_write_keeps_other_locations, lemma_write_wf, location, MmuView,
};
use crate::bits::{lemma_rotations, lemma_wrap8};
use crate::semantics::{alu, cycles_of, fetch, step_ok, step_spec, CpuView};

verus! {

/// CP sets the flags exactly as SUB does, and leaves A alone.
pub proof fn lemma_cp_is_sub_without_result(c: CpuView, v: u8)
    ensures
        alu(c, 7, v) == (CpuView { a: c.a, ..alu(c, 2, v) }),
{
}

/// SUB undoes ADD on A.
pub proof fn lemma_sub_undoes_add(c: CpuView, v: u8)
    ensures
        alu(alu(c, 0, v), 2, v).a == c.a,
{
    let a1 = alu(c, 0, v).a;
    lemma_wrap8(c.a + v);
    lemma_wrap8(a1 - v + 256);
}

/// XOR A with itself clears A and sets Z.
pub proof fn lemma_xor_self_clears(c: CpuView)
    ensures
        alu(c, 5, c.a).a == 0,
        alu(c, 5, c.a).flag_z,
{
    let a = c.a;
    assert(a ^ a == 0) by (bit_vector);
}

/// The two stack bytes written by a PUSH read back.
proof fn lemma_pushed_bytes(m: MmuView, sp: u16, hi: u8, lo: u8)
    requires
        m.wf(),
        sp >= 2,
        is_storage((sp - 1) as u16),
        is_storage((sp - 2) as u16),
    ensures
        ({
            let m1 = m.write((sp - 1) as u16, hi).write((sp - 2) as u16, lo);
            &&& m1.read((sp - 2) as u16) == lo
            &&& m1.read((sp - 1) as u16) == hi
        }),
{
    let sp1 = (sp - 1) as u16;
    let sp2 = (sp - 2) as u16;
    let ma = m.write(sp1, hi);
    lemma_write_wf(m, sp1, hi);
    assert(location(sp1) != location(sp2));
    lemma_read_after_write(ma, sp2, lo);
    lemma_write_keeps_other_locations(ma, sp2, lo, sp1);
    lemma_read_after_write(m, sp1, hi);
}

/// The flag byte that PUSH AF stores decodes, as POP AF reads it, to the same flags.
proof fn lemma_flag_byte_round_trip(c: CpuView)
    ensures
        (c.f() / 128) % 2 == 1 <==> c.flag_z,
        (c.f() / 64) % 2 == 1 <==> c.flag_n,
        (c.f() / 32) % 2 == 1 <==> c.flag_h,
        (c.f() / 16) % 2 == 1 <==> c.flag_c,
{
}

/// The register pair with index `k`: 0 BC, 1 DE, 2 HL, 3 AF (A high, the flag byte low).
pub open spec fn pair(c: CpuView, k: int) -> int {
    if k == 0 {
        c.b * 256 + c.c
    } else if k == 1 {
        c.d * 256 + c.e
    } else if k == 2 {
        c.h * 256 + c.l
    } else {
        c.a * 256 + c.f()
    }
}

/// A PUSH rr, and a later POP rr' with the stack pointer back where the PUSH left it and the two
/// pushed bytes untouched in between, whatever ran in between: the POP loads rr' with the value
/// rr had at the PUSH, and restores the stack pointer from before the PUSH. rr and rr' are both
/// among BC, DE, HL, or both AF, in which case all four flags come back as well. The pushed bytes
/// must lie in storage.
pub proof fn lemma_push_then_pop(s0: CpuView, m0: MmuView, c: CpuView, m: MmuView)
    requires
        m0.wf(),
        fetch(s0, m0) == 0xC5 || fetch(s0, m0) == 0xD5 || fetch(s0, m0) == 0xE5 || fetch(s0, m0)
            == 0xF5,
        step_ok(s0, m0),
        is_storage((s0.sp - 1) as u16),
        is_storage((s0.sp - 2) as u16),
        c.sp == s0.sp - 2,
        m.read((s0.sp - 2) as u16) == step_spec(s0, m0).1.read((s0.sp - 2) as u16),
        m.read((s0.sp - 1) as u16) == step_spec(s0, m0).1.read((s0.sp - 1) as u16),
        fetch(c, m) == 0xC1 || fetch(c, m) == 0xD1 || fetch(c, m) == 0xE1 || fetch(c, m) == 0xF1,
        (fetch(s0, m0) == 0xF5) == (fetch(c, m) == 0xF1),
        step_ok(c, m),
    ensures
        ({
            let (c2, m2) = step_spec(c, m);
            &&& pair(c2, (fetch(c, m) - 0xC1) / 16) == pair(s0, (fetch(s0, m0) - 0xC5) / 16)
            &&& fetch(s0, m0) == 0xF5 ==> c2.a == s0.a && c2.flag_z == s0.flag_z && c2.flag_n
                == s0.flag_n && c2.flag_h == s0.flag_h && c2.flag_c == s0.flag_c
            &&& c2.sp == s0.sp
            &&& c2.pc == c.pc + 1
            &&& m2 == m
        }),
{
    let op = fetch(s0, m0);
    if op == 0xC5 {
        lemma_pushed_bytes(m0, s0.sp, s0.b, s0.c);
    } else if op == 0xD5 {
        lemma_pushed_bytes(m0, s0.sp, s0.d, s0.e);
    } else if op == 0xE5 {
        lemma_pushed_bytes(m0, s0.sp, s0.h, s0.l);
    } else {
        lemma_pushed_bytes(m0, s0.sp, s0.a, s0.f());
        lemma_flag_byte_round_trip(s0);
    }
}

/// The return address that a call or a restart pushes: past the three bytes of CALL,
/// past the one byte of RST.
pub open spec fn return_address(s0: CpuView, m0: MmuView) -> int {
    if fetch(s0, m0) % 8 == 7 {
        s0.pc + 1
    } else {
        s0.pc + 3
    }
}

/// A CALL a16, a CALL cc whose condition holds, or an RST, and a later RET, RETI or RET cc whose
/// condition holds, with the stack pointer back where the call left it and the two pushed bytes
/// untouched in between, whatever ran in between: the return goes to the instruction after the
/// call and restores the stack pointer from before it. Every register and flag stays as it was
/// just before the return, and RETI sets IME. The pushed bytes must lie in storage.
pub proof fn lemma_call_then_ret(s0: CpuView, m0: MmuView, c: CpuView, m: MmuView)
    requires
        m0.wf(),
        fetch(s0, m0) == 0xCD || (fetch(s0, m0) >= 0xC0 && fetch(s0, m0) % 8 == 7) || ((fetch(
            s0,
            m0,
        ) == 0xC4 || fetch(s0, m0) == 0xCC || fetch(s0, m0) == 0xD4 || fetch(s0, m0) == 0xDC)
            && s0.cond((fetch(s0, m0) - 0xC4) / 8)),
        step_ok(s0, m0),
        is_storage((s0.sp - 1) as u16),
        is_storage((s0.sp - 2) as u16),
        c.sp == s0.sp - 2,
        m.read((s0.sp - 2) as u16) == step_spec(s0, m0).1.read((s0.sp - 2) as u16),
        m.read((s0.sp - 1) as u16) == step_spec(s0, m0).1.read((s0.sp - 1) as u16),
        fetch(c, m) == 0xC9 || fetch(c, m) == 0xD9 || ((fetch(c, m) == 0xC0 || fetch(c, m) == 0xC8
            || fetch(c, m) == 0xD0 || fetch(c, m) == 0xD8) && c.cond((fetch(c, m) - 0xC0) / 8)),
        step_ok(c, m),
    ensures
        ({
            let (c2, m2) = step_spec(c, m);
            &&& c2.pc == return_address(s0, m0)
            &&& c2.sp == s0.sp
            &&& c2.ime == (c.ime || fetch(c, m) == 0xD9)
            &&& c2 == (CpuView { pc: c2.pc, sp: c2.sp, ime: c2.ime, cycles: c2.cycles, ..c })
            &&& m2 == m
        }),
{
    let sp2 = (s0.sp - 2) as u16;
    let ret = return_address(s0, m0) as u16;
    lemma_read_word_after_write_word(m0, sp2, ret);
}

/// SET-style register updates of a pair: writing the high and the low byte of `v` into two
/// distinct registers reads back as `v`, and leaves every other register alone.
pub proof fn lemma_set_pair_round_trip(c: CpuView, hi: int, lo: int, v: u16)
    requires
        0 <= hi < 8,
        0 <= lo < 8,
        hi != 6,
        lo != 6,
        hi != lo,
    ensures
        ({
            let c1 = c.set_reg(hi, (v / 256) as u8).set_reg(lo, (v % 256) as u8);
            &&& c1.reg(hi) * 256 + c1.reg(lo) == v
            &&& forall|r: int| 0 <= r < 8 && r != 6 && r != hi && r != lo ==> #[trigger] c1.reg(r) == c.reg(r)
        }),
{
}

/// An 8-bit increment of register `r` and then a decrement, as INC r and DEC r carry them out,
/// give the register back, leave C, every other register, PC and SP alone, and set N.
pub proof fn lemma_inc_then_dec_register(c: CpuView, r: int)
    requires
        0 <= r < 8,
        r != 6,
    ensures
        ({
            let v = ((c.reg(r) + 1) % 256) as u8;
            let c1 = c.set_reg(r, v).inc_flags(v);
            let w = ((c1.reg(r) + 255) % 256) as u8;
            let c2 = c1.set_reg(r, w).dec_flags(w);
            &&& w == c.reg(r)
            &&& c2 == (CpuView {
                flag_z: c.reg(r) == 0,
                flag_n: true,
                flag_h: c.reg(r) % 16 == 15,
                ..c
            })
        }),
{
}

/// INC r followed by DEC r gives the register back.
pub proof fn lemma_inc_then_dec(c: CpuView, m: MmuView, r: int)
    requires
        0 <= r < 8,
        r != 6,
        fetch(c, m) == 8 * r + 4,
        m.read((c.pc + 1) as u16) == 8 * r + 5,
        c.pc + 2 <= 0xFFFF,
        c.cycles + 8 <= u64::MAX,
    ensures
        ({
            let (c1, m1) = step_spec(c, m);
            let (c2, m2) = step_spec(c1, m1);
            &&& c2.reg(r) == c.reg(r)
            &&& c2.pc == c.pc + 2
            &&& m2 == m
        }),
{
    let x = c.reg(r);
    let v = ((x + 1) % 256) as u8;
    lemma_wrap8(x + 1);
    lemma_wrap8(v + 255);
    assert(((v + 255) % 256) as u8 == x);
    let op = fetch(c, m);
    assert(op % 8 == 4 && op / 8 == r);
    let c1 = c.set_reg(r, v).inc_flags(v).step_pc(1);
    assert(step_spec(c, m).0 == CpuView { cycles: (c.cycles + 4) as u64, ..c1 });
    assert(step_spec(c, m).1 == m);
    assert(fetch(step_spec(c, m).0, m) == 8 * r + 5);
}

/// RRCA undoes RLCA on A.
pub proof fn lemma_rlca_then_rrca(c: CpuView, m: MmuView)
    requires
        fetch(c, m) == 0x07,
        m.read((c.pc + 1) as u16) == 0x0F,
        c.pc + 2 <= 0xFFFF,
        c.cycles + 8 <= u64::MAX,
    ensures
        ({
            let (c1, m1) = step_spec(c, m);
            let (c2, m2) = step_spec(c1, m1);
            &&& c2.a == c.a
            &&& c2.pc == c.pc + 2
        }),
{
    let a = c.a;
    let r: u8 = (a << 1u8) | (a >> 7u8);
    lemma_rotations(a, 0);
    lemma_rotations(r, 0);
    assert(((r >> 1u8) | (r << 7u8)) == a) by (bit_vector)
        requires
            r == (a << 1u8) | (a >> 7u8),
    ;
}

/// CPL twice gives A back.
pub proof fn lemma_cpl_twice(c: CpuView, m: MmuView)
    requires
        fetch(c, m) == 0x2F,
        m.read((c.pc + 1) as u16) == 0x2F,
        c.pc + 2 <= 0xFFFF,
        c.cycles + 8 <= u64::MAX,
    ensures
        ({
            let (c1, m1) = step_spec(c, m);
            let (c2, m2) = step_spec(c1, m1);
            &&& c2.a == c.a
            &&& c2.pc == c.pc + 2
        }),
{
}

/// LD [HL], r followed by LD r', [HL] copies r into r' when HL addresses storage that does not
/// hold the second opcode.
pub proof fn lemma_store_then_load(c: CpuView, m: MmuView, r: int, r2: int)
    requires
        m.wf(),
        0 <= r < 8,
        r != 6,
        0 <= r2 < 8,
        r2 != 6,
        fetch(c, m) == 0x70 + r,
        m.read((c.pc + 1) as u16) == 0x46 + 8 * r2,
        is_storage(c.hl()),
        location(c.hl()) != location((c.pc + 1) as u16),
        c.pc + 2 <= 0xFFFF,
        c.cycles + 12 <= u64::MAX,
    ensures
        ({
            let (c1, m1) = step_spec(c, m);
            let (c2, m2) = step_spec(c1, m1);
            &&& c2.reg(r2) == c.reg(r)
            &&& c2.pc == c.pc + 2
        }),
{
    lemma_read_after_write(m, c.hl(), c.reg(r));
    lemma_write_keeps_other_locations(m, c.hl(), c.reg(r), (c.pc + 1) as u16);
}

/// Every instruction but the undefined opcodes takes at least 4 cycles, a multiple of 4.
pub proof fn lemma_defined_opcodes_take_cycles(c: CpuView, m: MmuView)
    requires
        !(fetch(c, m) == 0xD3 || fetch(c, m) == 0xDB || fetch(c, m)
            == 0xDD || fetch(c, m) == 0xE3 || fetch(c, m) == 0xE4 || fetch(c, m) == 0xEB || fetch(
            c,
            m,
        ) == 0xEC || fetch(c, m) == 0xED || fetch(c, m) == 0xF4 || fetch(c, m) == 0xFC || fetch(
            c,
            m,
        ) == 0xFD),
    ensures
        cycles_of(c, m) >= 4,
        cycles_of(c, m) % 4 == 0,
{
}

/// The opcodes that the processor leaves undefined change nothing, not even the
/// program counter or the cycle count.
pub proof fn lemma_undefined_opcodes_stall(c: CpuView, m: MmuView)
    requires
        fetch(c, m) == 0xD3 || fetch(c, m) == 0xDB || fetch(c, m) == 0xDD
            || fetch(c, m) == 0xE3 || fetch(c, m) == 0xE4 || fetch(c, m) == 0xEB || fetch(c, m)
            == 0xEC || fetch(c, m) == 0xED || fetch(c, m) == 0xF4 || fetch(c, m) == 0xFC || fetch(
            c,
            m,
        ) == 0xFD,
    ensures
        step_spec(c, m) == (c, m),
{
}

} // verus!
