use vstd::prelude::*;

use crate::bits::{lemma_join_bytes, lemma_split_word};

verus! {

/// Where a 16-bit address of the memory map lands.
pub enum Location {
    /// Cartridge ROM, 0x0000..=0x7FFF, at the given offset.
    Rom(int),
    /// Video RAM, 0x8000..=0x9FFF.
    Vram(int),
    /// Work RAM, 0xC000..=0xDFFF, and its echo at 0xE000..=0xFDFF.
    Wram(int),
    /// Object attribute memory, 0xFE00..=0xFE9F.
    Oam(int),
    /// I/O registers, 0xFF00..=0xFF7F.
    Io(int),
    /// High RAM, 0xFF80..=0xFFFE.
    Hram(int),
    /// The interrupt enable register, 0xFFFF.
    Ie,
    /// External RAM and the unusable area: reads give 0xFF, writes are ignored.
    Unmapped,
}

/// The memory map of an address.
pub open spec fn location(addr: u16) -> Location {
    if addr <= 0x7FFF {
        Location::Rom(addr as int)
    } else if addr <= 0x9FFF {
        Location::Vram(addr - 0x8000)
    } else if addr <= 0xBFFF {
        Location::Unmapped
    } else if addr <= 0xDFFF {
        Location::Wram(addr - 0xC000)
    } else if addr <= 0xFDFF {
        Location::Wram(addr - 0xE000)
    } else if addr <= 0xFE9F {
        Location::Oam(addr - 0xFE00)
    } else if addr <= 0xFEFF {
        Location::Unmapped
    } else if addr <= 0xFF7F {
        Location::Io(addr - 0xFF00)
    } else if addr <= 0xFFFE {
        Location::Hram(addr - 0xFF80)
    } else {
        Location::Ie
    }
}

/// Abstract state of the memory bus.
pub struct MmuView {
    pub vram: Seq<u8>,
    pub wram: Seq<u8>,
    pub oam: Seq<u8>,
    pub io: Seq<u8>,
    pub hram: Seq<u8>,
    pub rom: Seq<u8>,
    pub ie: u8,
    /// Every byte written to the serial data register 0xFF01, as characters.
    pub sb: Seq<char>,
}

impl MmuView {
    /// The sizes of the RAM banks.
    pub open spec fn wf(self) -> bool {
        &&& self.vram.len() == 8192
        &&& self.wram.len() == 8192
        &&& self.oam.len() == 160
        &&& self.io.len() == 128
        &&& self.hram.len() == 127
    }

    /// The byte that a read of `addr` gives.
    #[verifier::opaque]
    pub open spec fn read(self, addr: u16) -> u8 {
        match location(addr) {
            Location::Rom(i) => if i < self.rom.len() {
                self.rom[i]
            } else {
                0xFF
            },
            Location::Vram(i) => self.vram[i],
            Location::Wram(i) => self.wram[i],
            Location::Oam(i) => self.oam[i],
            Location::Io(i) => self.io[i],
            Location::Hram(i) => self.hram[i],
            Location::Ie => self.ie,
            Location::Unmapped => 0xFF,
        }
    }

    /// The state after a byte write to `addr`. ROM and unmapped writes are ignored;
    /// a write to the serial register 0xFF01 also appends the byte to `sb`;
    /// a write to the divider 0xFF04 resets it to 0.
    #[verifier::opaque]
    pub open spec fn write(self, addr: u16, value: u8) -> MmuView {
        match location(addr) {
            Location::Rom(_) => self,
            Location::Unmapped => self,
            Location::Vram(i) => MmuView { vram: self.vram.update(i, value), ..self },
            Location::Wram(i) => MmuView { wram: self.wram.update(i, value), ..self },
            Location::Oam(i) => MmuView { oam: self.oam.update(i, value), ..self },
            Location::Io(i) => MmuView {
                io: self.io.update(i, if i == 4 { 0 } else { value }),
                sb: if i == 1 { self.sb.push(value as char) } else { self.sb },
                ..self
            },
            Location::Hram(i) => MmuView { hram: self.hram.update(i, value), ..self },
            Location::Ie => MmuView { ie: value, ..self },
        }
    }

    /// The little-endian word at `addr` and `addr + 1`.
    pub open spec fn read_word(self, addr: u16) -> u16
        recommends
            addr < 0xFFFF,
    {
        (self.read((addr + 1) as u16) * 256 + self.read(addr)) as u16
    }

    /// The state after writing `value`, low byte first, to `addr` and `addr + 1`.
    pub open spec fn write_word(self, addr: u16, value: u16) -> MmuView
        recommends
            addr < 0xFFFF,
    {
        self.write(addr, (value % 256) as u8).write((addr + 1) as u16, (value / 256) as u8)
    }
}

/// An address whose location keeps the byte last written to it: every RAM bank,
/// the interrupt enable register and every I/O register but the divider 0xFF04.
pub open spec fn is_storage(addr: u16) -> bool {
    match location(addr) {
        Location::Rom(_) => false,
        Location::Unmapped => false,
        Location::Io(i) => i != 4,
        _ => true,
    }
}

/// The memory map for reads: each address reads its own byte of the bank that it falls in
/// (ROM from 0x0000, VRAM from 0x8000, work RAM from 0xC000 and again from 0xE000, OAM from 0xFE00,
/// I/O from 0xFF00, HRAM from 0xFF80, IE at 0xFFFF); ROM past its end, 0xA000..=0xBFFF and
/// 0xFEA0..=0xFEFF read 0xFF.
pub proof fn lemma_memory_map_reads(m: MmuView, addr: u16)
    ensures
        addr <= 0x7FFF && addr < m.rom.len() ==> m.read(addr) == m.rom[addr as int],
        addr <= 0x7FFF && addr >= m.rom.len() ==> m.read(addr) == 0xFF,
        0x8000 <= addr <= 0x9FFF ==> m.read(addr) == m.vram[addr - 0x8000],
        0xA000 <= addr <= 0xBFFF ==> m.read(addr) == 0xFF,
        0xC000 <= addr <= 0xDFFF ==> m.read(addr) == m.wram[addr - 0xC000],
        0xE000 <= addr <= 0xFDFF ==> m.read(addr) == m.wram[addr - 0xE000],
        0xFE00 <= addr <= 0xFE9F ==> m.read(addr) == m.oam[addr - 0xFE00],
        0xFEA0 <= addr <= 0xFEFF ==> m.read(addr) == 0xFF,
        0xFF00 <= addr <= 0xFF7F ==> m.read(addr) == m.io[addr - 0xFF00],
        0xFF80 <= addr <= 0xFFFE ==> m.read(addr) == m.hram[addr - 0xFF80],
        addr == 0xFFFF ==> m.read(addr) == m.ie,
{
    reveal(MmuView::read);
}

/// The memory map for writes: a write stores the byte in its own place in the bank that the
/// address falls in and changes nothing else, except that the divider 0xFF04 is cleared and a byte
/// written to 0xFF01 is also appended to the serial buffer; ROM and unmapped writes change nothing.
pub proof fn lemma_memory_map_writes(m: MmuView, addr: u16, v: u8)
    ensures
        addr <= 0x7FFF ==> m.write(addr, v) == m,
        0xA000 <= addr <= 0xBFFF ==> m.write(addr, v) == m,
        0xFEA0 <= addr <= 0xFEFF ==> m.write(addr, v) == m,
        0x8000 <= addr <= 0x9FFF ==> m.write(addr, v) == (MmuView {
            vram: m.vram.update(addr - 0x8000, v),
            ..m
        }),
        0xC000 <= addr <= 0xDFFF ==> m.write(addr, v) == (MmuView {
            wram: m.wram.update(addr - 0xC000, v),
            ..m
        }),
        0xE000 <= addr <= 0xFDFF ==> m.write(addr, v) == (MmuView {
            wram: m.wram.update(addr - 0xE000, v),
            ..m
        }),
        0xFE00 <= addr <= 0xFE9F ==> m.write(addr, v) == (MmuView {
            oam: m.oam.update(addr - 0xFE00, v),
            ..m
        }),
        0xFF00 <= addr <= 0xFF7F && addr != 0xFF01 && addr != 0xFF04 ==> m.write(addr, v) == (
        MmuView { io: m.io.update(addr - 0xFF00, v), ..m }),
        addr == 0xFF01 ==> m.write(addr, v) == (MmuView {
            io: m.io.update(1, v),
            sb: m.sb.push(v as char),
            ..m
        }),
        addr == 0xFF04 ==> m.write(addr, v) == (MmuView { io: m.io.update(4, 0), ..m }),
        0xFF80 <= addr <= 0xFFFE ==> m.write(addr, v) == (MmuView {
            hram: m.hram.update(addr - 0xFF80, v),
            ..m
        }),
        addr == 0xFFFF ==> m.write(addr, v) == (MmuView { ie: v, ..m }),
{
    reveal(MmuView::write);
}

/// A little-endian word: the byte at `addr` is the low byte, the byte at `addr + 1` the high byte.
pub proof fn lemma_word_order(m: MmuView, addr: u16, value: u16)
    requires
        addr < 0xFFFF,
    ensures
        m.read_word(addr) == m.read(addr) + 256 * m.read((addr + 1) as u16),
        m.write_word(addr, value) == m.write(addr, (value % 256) as u8).write(
            (addr + 1) as u16,
            (value / 256) as u8,
        ),
{
}

/// A write keeps the sizes of the RAM banks.
pub proof fn lemma_write_wf(m: MmuView, addr: u16, value: u8)
    requires
        m.wf(),
    ensures
        m.write(addr, value).wf(),
{
    reveal(MmuView::write);
}

/// A read of a storage address gives back the byte last written to it.
pub proof fn lemma_read_after_write(m: MmuView, addr: u16, value: u8)
    requires
        m.wf(),
        is_storage(addr),
    ensures
        m.write(addr, value).read(addr) == value,
{
    reveal(MmuView::read);
    reveal(MmuView::write);
}

/// A write changes no other location: a read of an address that does not share the
/// written address's location gives what it gave before.
pub proof fn lemma_write_keeps_other_locations(m: MmuView, addr: u16, value: u8, other: u16)
    requires
        m.wf(),
        location(addr) != location(other),
    ensures
        m.write(addr, value).read(other) == m.read(other),
{
    reveal(MmuView::read);
    reveal(MmuView::write);
}

/// Writes to cartridge ROM and to unmapped addresses change nothing.
pub proof fn lemma_write_ignored(m: MmuView, addr: u16, value: u8)
    requires
        location(addr) is Rom || location(addr) is Unmapped,
    ensures
        m.write(addr, value) == m,
{
    reveal(MmuView::read);
    reveal(MmuView::write);
}

/// Unmapped addresses read as 0xFF, as do ROM addresses past the end of the loaded ROM.
pub proof fn lemma_open_bus_reads(m: MmuView, addr: u16)
    requires
        location(addr) is Unmapped || (addr <= 0x7FFF && addr >= m.rom.len()),
    ensures
        m.read(addr) == 0xFF,
{
    reveal(MmuView::read);
    reveal(MmuView::write);
}

/// 0xE000..=0xFDFF mirrors work RAM at 0xC000..=0xDDFF, for reads and for writes.
pub proof fn lemma_echo_ram(m: MmuView, addr: u16, value: u8)
    requires
        0xE000 <= addr <= 0xFDFF,
    ensures
        location(addr) == location((addr - 0x2000) as u16),
        m.read(addr) == m.read((addr - 0x2000) as u16),
        m.write(addr, value) == m.write((addr - 0x2000) as u16, value),
{
    reveal(MmuView::read);
    reveal(MmuView::write);
}

/// A write to the divider 0xFF04 resets it to 0, whatever the value.
pub proof fn lemma_divider_reset(m: MmuView, value: u8)
    requires
        m.wf(),
    ensures
        m.write(0xFF04, value).read(0xFF04) == 0,
{
    reveal(MmuView::read);
    reveal(MmuView::write);
}

/// A write to the serial data register 0xFF01 appends the byte to the serial buffer;
/// no other write touches it.
pub proof fn lemma_serial_buffer(m: MmuView, addr: u16, value: u8)
    ensures
        addr == 0xFF01 ==> m.write(addr, value).sb == m.sb.push(value as char),
        addr != 0xFF01 ==> m.write(addr, value).sb == m.sb,
{
    reveal(MmuView::read);
    reveal(MmuView::write);
}

/// The state after the byte writes `ws`, in order.
pub open spec fn write_all(m: MmuView, ws: Seq<(u16, u8)>) -> MmuView
    decreases ws.len(),
{
    if ws.len() == 0 {
        m
    } else {
        write_all(m, ws.drop_last()).write(ws.last().0, ws.last().1)
    }
}

/// The bytes that the writes `ws` send to the serial register 0xFF01, in order, as characters.
pub open spec fn serial_chars(ws: Seq<(u16, u8)>) -> Seq<char>
    decreases ws.len(),
{
    if ws.len() == 0 {
        Seq::empty()
    } else if ws.last().0 == 0xFF01 {
        serial_chars(ws.drop_last()).push(ws.last().1 as char)
    } else {
        serial_chars(ws.drop_last())
    }
}

/// Over any run of writes, the serial buffer grows by exactly the bytes written to 0xFF01,
/// in the order written.
pub proof fn lemma_serial_log(m: MmuView, ws: Seq<(u16, u8)>)
    ensures
        write_all(m, ws).sb == m.sb + serial_chars(ws),
    decreases ws.len(),
{
    if ws.len() == 0 {
        assert(m.sb + Seq::<char>::empty() =~= m.sb);
    } else {
        let prefix = ws.drop_last();
        lemma_serial_log(m, prefix);
        lemma_serial_buffer(write_all(m, prefix), ws.last().0, ws.last().1);
        if ws.last().0 == 0xFF01 {
            assert((m.sb + serial_chars(prefix)).push(ws.last().1 as char) =~= m.sb + serial_chars(
                prefix,
            ).push(ws.last().1 as char));
        }
    }
}

/// A word written to two storage addresses reads back unchanged.
pub proof fn lemma_read_word_after_write_word(m: MmuView, addr: u16, value: u16)
    requires
        m.wf(),
        addr < 0xFFFF,
        is_storage(addr),
        is_storage((addr + 1) as u16),
    ensures
        m.write_word(addr, value).read_word(addr) == value,
{
    let a1 = (addr + 1) as u16;
    let m1 = m.write(addr, (value % 256) as u8);
    lemma_write_wf(m, addr, (value % 256) as u8);
    lemma_read_after_write(m, addr, (value % 256) as u8);
    assert(location(addr) != location(a1));
    lemma_write_keeps_other_locations(m1, a1, (value / 256) as u8, addr);
    lemma_read_after_write(m1, a1, (value / 256) as u8);
}

/// What `write_word_pair(addr, v1, v2)` writes to two storage addresses,
/// `read_word_pair(addr)` gives back as `(v2, v1)`.
pub proof fn lemma_word_pair_round_trip(m: MmuView, addr: u16, v1: u8, v2: u8)
    requires
        m.wf(),
        addr < 0xFFFF,
        is_storage(addr),
        is_storage((addr + 1) as u16),
    ensures
        ({
            let m2 = m.write(addr, v1).write((addr + 1) as u16, v2);
            (m2.read((addr + 1) as u16), m2.read(addr)) == (v2, v1)
        }),
{
    let a1 = (addr + 1) as u16;
    let m1 = m.write(addr, v1);
    lemma_write_wf(m, addr, v1);
    lemma_read_after_write(m, addr, v1);
    assert(location(addr) != location(a1));
    lemma_write_keeps_other_locations(m1, a1, v2, addr);
    lemma_read_after_write(m1, a1, v2);
}

/// `String::push`: appends `c` to the end of `s`.
#[verifier::external_body]
fn string_push(s: &mut String, c: char)
    ensures
        final(s)@ == old(s)@.push(c),
{
    s.push(c);
}

pub struct Mmu {
    vram: [u8; 8192],
    wram: [u8; 8192],
    oam: [u8; 160],
    io_registers: [u8; 128],
    hram: [u8; 127],
    rom: Vec<u8>,
    ie: u8,
    sb: String,
}

impl View for Mmu {
    type V = MmuView;

    closed spec fn view(&self) -> MmuView {
        MmuView {
            vram: self.vram@,
            wram: self.wram@,
            oam: self.oam@,
            io: self.io_registers@,
            hram: self.hram@,
            rom: self.rom@,
            ie: self.ie,
            sb: self.sb@,
        }
    }
}

impl Mmu {
    pub fn new() -> (m: Self)
        ensures
            m@.wf(),
            m@.vram == Seq::new(8192, |i: int| 0u8),
            m@.wram == Seq::new(8192, |i: int| 0u8),
            m@.oam == Seq::new(160, |i: int| 0u8),
            m@.io == Seq::new(128, |i: int| 0u8),
            m@.hram == Seq::new(127, |i: int| 0u8),
            m@.rom == Seq::<u8>::empty(),
            m@.ie == 0,
            m@.sb == Seq::<char>::empty(),
    {
        let m = Mmu {
            vram: [0; 8192],
            wram: [0; 8192],
            oam: [0; 160],
            io_registers: [0; 128],
            hram: [0; 127],
            rom: Vec::new(),
            ie: 0,
            sb: String::new(),
        };
        assert(m@.vram =~= Seq::new(8192, |i: int| 0u8));
        assert(m@.wram =~= Seq::new(8192, |i: int| 0u8));
        assert(m@.oam =~= Seq::new(160, |i: int| 0u8));
        assert(m@.io =~= Seq::new(128, |i: int| 0u8));
        assert(m@.hram =~= Seq::new(127, |i: int| 0u8));
        m
    }

    /// The RAM banks always have their fixed sizes.
    pub proof fn lemma_wf(&self)
        ensures
            self@.wf(),
    {
    }

    /// Every character written so far to the serial data register.
    pub fn sb(&self) -> (r: &String)
        ensures
            r@ == self@.sb,
    {
        return &self.sb;
    }

    /// Puts `data` in place of the cartridge ROM.
    pub fn load_bytes(&mut self, data: &[u8])
        ensures
            final(self)@ == (MmuView { rom: data@, ..old(self)@ }),
    {
        self.rom = vstd::slice::slice_to_vec(data);
    }

    /// Reads the little-endian word at `addr`.
    pub fn read_word(&self, addr: u16) -> (r: u16)
        requires
            addr < 0xFFFF,
        ensures
            r == self@.read_word(addr),
            r == self@.read((addr + 1) as u16) * 256 + self@.read(addr),
    {
        let low_byte = self.read(addr);
        let high_byte = self.read(addr + 1);
        proof {
            lemma_join_bytes(high_byte, low_byte);
        }
        (high_byte as u16) << 8 | low_byte as u16
    }

    /// Reads the bytes at `addr + 1` and `addr`, in that order.
    pub fn read_word_pair(&self, addr: u16) -> (r: (u8, u8))
        requires
            addr < 0xFFFF,
        ensures
            r == (self@.read((addr + 1) as u16), self@.read(addr)),
    {
        let low_byte = self.read(addr);
        let high_byte = self.read(addr + 1);

        return (high_byte, low_byte);
    }

    /// Writes `value` to `addr` and `addr + 1`, low byte first.
    pub fn write_word(&mut self, addr: u16, value: u16)
        requires
            addr < 0xFFFF,
        ensures
            final(self)@ == old(self)@.write_word(addr, value),
    {
        proof {
            lemma_split_word(value);
        }
        self.write(addr, value as u8);
        self.write(addr + 1, (value >> 8) as u8);
    }

    /// Writes `value_1` to `addr`, then `value_2` to `addr + 1`.
    pub fn write_word_pair(&mut self, addr: u16, value_1: u8, value_2: u8)
        requires
            addr < 0xFFFF,
        ensures
            final(self)@ == old(self)@.write(addr, value_1).write((addr + 1) as u16, value_2),
    {
        self.write(addr, value_1);
        self.write(addr + 1, value_2);
    }

    /// Adds `cycles` to the divider register 0xFF04, modulo 256. Nothing else changes.
    pub fn div_reg_add(&mut self, cycles: u8)
        ensures
            final(self)@ == (MmuView {
                io: old(self)@.io.update(4, ((old(self)@.io[4] + cycles) % 256) as u8),
                ..old(self)@
            }),
            final(self)@.read(0xFF04) == (old(self)@.read(0xFF04) + cycles) % 256,
            forall|addr: u16| addr != 0xFF04 ==> #[trigger] final(self)@.read(addr) == old(self)@.read(addr),
    {
        // Adds the processor's cycle count to the register set aside for the divider
        let value = self.read(0xFF04).wrapping_add(cycles);
        self.io_registers[4] = value;
        proof {
            reveal(MmuView::read);
        }
    }

    pub fn read(&self, addr: u16) -> (r: u8)
        ensures
            r == self@.read(addr),
    {
        proof {
            reveal(MmuView::read);
            reveal(MmuView::write);
        }
        if addr <= 0x7FFF {
            let i = addr as usize;
            if i < self.rom.len() {
                self.rom[i]
            } else {
                0xFF
            }
        } else if addr <= 0x9FFF {
            self.vram[(addr - 0x8000) as usize]
        } else if addr <= 0xBFFF {
            0xFF
        } else if addr <= 0xDFFF {
            self.wram[(addr - 0xC000) as usize]
        } else if addr <= 0xFDFF {
            self.wram[(addr - 0xE000) as usize]
        } else if addr <= 0xFE9F {
            self.oam[(addr - 0xFE00) as usize]
        } else if addr <= 0xFEFF {
            0xFF
        } else if addr <= 0xFF7F {
            self.io_registers[(addr - 0xFF00) as usize]
        } else if addr <= 0xFFFE {
            self.hram[(addr - 0xFF80) as usize]
        } else {
            self.ie
        }
    }

    pub fn write(&mut self, addr: u16, value: u8)
        ensures
            final(self)@ == old(self)@.write(addr, value),
    {
        proof {
            reveal(MmuView::read);
            reveal(MmuView::write);
        }
        if addr <= 0x7FFF {
        } else if addr <= 0x9FFF {
            self.vram[(addr - 0x8000) as usize] = value;
        } else if addr <= 0xBFFF {
        } else if addr <= 0xDFFF {
            self.wram[(addr - 0xC000) as usize] = value;
        } else if addr <= 0xFDFF {
            self.wram[(addr - 0xE000) as usize] = value;
        } else if addr <= 0xFE9F {
            self.oam[(addr - 0xFE00) as usize] = value;
        } else if addr <= 0xFEFF {
        } else if addr <= 0xFF7F {
            if addr == 0xFF01 {
                string_push(&mut self.sb, value as char);
            }
            if addr == 0xFF04 {
                self.io_registers[4] = 0;
                return;
            }
            self.io_registers[(addr - 0xFF00) as usize] = value;
        } else if addr <= 0xFFFE {
            self.hram[(addr - 0xFF80) as usize] = value;
        } else {
            self.ie = value;
        }
    }
}

} // verus!
