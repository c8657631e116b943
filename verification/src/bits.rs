use vstd::prelude::*;

verus! {

pub proof fn lemma_join_bytes(high: u8, low: u8)
    ensures
        ((high as u16) << 8u16 | low as u16) == high * 256 + low,
{
    assert(((high as u16) << 8u16 | low as u16) == high * 256 + low) by (bit_vector);
}

pub proof fn lemma_split_word(value: u16)
    ensures
        value as u8 == value % 256,
        (value >> 8u16) as u8 == value / 256,
        (value & 0xFF) as u8 == value % 256,
        (value >> 8u16 & 0xFF) as u8 == value / 256,
{
    assert(value as u8 == value % 256) by (bit_vector);
    assert((value >> 8u16) as u8 == value / 256) by (bit_vector);
    assert((value & 0xFF) as u8 == value % 256) by (bit_vector);
    assert((value >> 8u16 & 0xFF) as u8 == value / 256) by (bit_vector);
}

pub proof fn lemma_low_nibble(x: u8)
    ensures
        x & 0x0F == x % 16,
{
    assert(x & 0x0F == x % 16) by (bit_vector);
}

pub proof fn lemma_low_twelve_bits(x: u16)
    ensures
        x & 0x0FFF == x % 4096,
{
    assert(x & 0x0FFF == x % 4096) by (bit_vector);
}

pub proof fn lemma_low_bits_u16(x: u16)
    ensures
        x & 0x000F == x % 16,
        x & 0x00FF == x % 256,
{
    assert(x & 0x000F == x % 16) by (bit_vector);
    assert(x & 0x00FF == x % 256) by (bit_vector);
}

pub proof fn lemma_shifts(v: u8)
    ensures
        v << 1u8 == (v * 2) % 256,
        ((v >> 1u8) | (v & 0x80)) == v / 2 + (v / 128) * 128,
        ((v << 4u8) | (v >> 4u8)) == (v % 16) * 16 + v / 16,
        v >> 1u8 == v / 2,
        v >> 6u8 == v / 64,
{
    assert(v << 1u8 == (v * 2) % 256) by (bit_vector);
    assert(((v >> 1u8) | (v & 0x80)) == v / 2 + (v / 128) * 128) by (bit_vector);
    assert(((v << 4u8) | (v >> 4u8)) == (v % 16) * 16 + v / 16) by (bit_vector);
    assert(v >> 1u8 == v / 2) by (bit_vector);
    assert(v >> 6u8 == v / 64) by (bit_vector);
}

pub proof fn lemma_sign_extend(e: u8)
    ensures
        ((e as i8) as u16) == (if e < 128 { e as u16 } else { (e + 0xFF00) as u16 }),
{
    assert(((e as i8) as u16) == (if e < 128 { e as u16 } else { (e + 0xFF00) as u16 }))
        by (bit_vector);
}

pub proof fn lemma_rotations(a: u8, cb: u8)
    requires
        cb <= 1,
    ensures
        ((a << 1u8) | (a >> 7u8)) == (a * 2) % 256 + a / 128,
        ((a >> 1u8) | (a << 7u8)) == a / 2 + (a % 2) * 128,
        ((a << 1u8) | cb) == (a * 2) % 256 + cb,
        ((a >> 1u8) | (cb << 7u8)) == a / 2 + cb * 128,
        ((a & 0x80) != 0) == (a >= 128),
        ((a & 0x01) != 0) == (a % 2 == 1),
        !a == 255 - a,
{
    assert(((a << 1u8) | (a >> 7u8)) == (a * 2) % 256 + a / 128) by (bit_vector);
    assert(((a >> 1u8) | (a << 7u8)) == a / 2 + (a % 2) * 128) by (bit_vector);
    assert(((a << 1u8) | cb) == (a * 2) % 256 + cb) by (bit_vector)
        requires
            cb <= 1,
    ;
    assert(((a >> 1u8) | (cb << 7u8)) == a / 2 + cb * 128) by (bit_vector)
        requires
            cb <= 1,
    ;
    assert(((a & 0x80) != 0) == (a >= 128)) by (bit_vector);
    assert(((a & 0x01) != 0) == (a % 2 == 1)) by (bit_vector);
    assert(!a == 255 - a) by (bit_vector);
}

pub proof fn lemma_flag_byte(f: u8)
    ensures
        ((f & 0x80) != 0) == ((f / 128) % 2 == 1),
        ((f & 0x40) != 0) == ((f / 64) % 2 == 1),
        ((f & 0x20) != 0) == ((f / 32) % 2 == 1),
        ((f & 0x10) != 0) == ((f / 16) % 2 == 1),
{
    assert(((f & 0x80) != 0) == ((f / 128) % 2 == 1)) by (bit_vector);
    assert(((f & 0x40) != 0) == ((f / 64) % 2 == 1)) by (bit_vector);
    assert(((f & 0x20) != 0) == ((f / 32) % 2 == 1)) by (bit_vector);
    assert(((f & 0x10) != 0) == ((f / 16) % 2 == 1)) by (bit_vector);
}

pub proof fn lemma_pack_flags(z: u8, n: u8, h: u8, c: u8)
    requires
        z <= 1,
        n <= 1,
        h <= 1,
        c <= 1,
    ensures
        ((z << 7u8) | (n << 6u8) | (h << 5u8) | (c << 4u8)) == z * 128 + n * 64 + h * 32 + c * 16,
{
    assert(((z << 7u8) | (n << 6u8) | (h << 5u8) | (c << 4u8)) == z * 128 + n * 64 + h * 32 + c
        * 16) by (bit_vector)
        requires
            z <= 1,
            n <= 1,
            h <= 1,
            c <= 1,
    ;
}

pub proof fn lemma_opcode_fields(op: u8)
    ensures
        (op >> 3u8) & 7 == (op / 8) % 8,
        op & 7 == op % 8,
{
    assert((op >> 3u8) & 7 == (op / 8) % 8) by (bit_vector);
    assert(op & 7 == op % 8) by (bit_vector);
}

pub proof fn lemma_wrap16(x: int)
    requires
        0 <= x < 0x20000,
    ensures
        x % 0x10000 == (if x < 0x10000 { x } else { x - 0x10000 }),
{
}

pub proof fn lemma_wrap8(x: int)
    requires
        0 <= x < 0x200,
    ensures
        x % 0x100 == (if x < 0x100 { x } else { x - 0x100 }),
{
}

} // verus!
