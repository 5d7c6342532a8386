//! A parallel NOR flash that answers the Common Flash Interface query. It can be
//! read and queried; program and erase commands are ignored.

#[allow(unused_imports)]
use crate::bytes::{
    copy_at, le_value, lemma_byte_range_grows, lemma_byte_ranges, lemma_le_value_bound, read_at,
};
use crate::bytes::copy_into;
#[allow(unused_imports)]
use crate::outcome::same_result;
#[allow(unused_imports)]
use crate::text::decimal_text;
use crate::text::decimal;
#[allow(unused_imports)]
use vstd::arithmetic::power2::{lemma2_to64, pow2};
use vstd::prelude::*;

verus! {

/// What a read of the flash returns.
#[derive(Debug, Clone, Copy, PartialEq, Eq, Structural)]
pub enum FlashState {
    /// The stored bytes.
    ReadArray,
    /// The CFI query table.
    CfiQuery,
    /// The manufacturer and device codes.
    ReadId,
}

/// A CFI parallel flash.
pub struct Flash {
    data: Vec<u8>,
    state: FlashState,
}

/// The contents and the read mode of a flash.
#[verifier::ext_equal]
pub struct FlashView {
    pub data: Seq<u8>,
    pub state: FlashState,
}

impl View for Flash {
    type V = FlashView;

    closed spec fn view(&self) -> FlashView {
        FlashView { data: self.data@, state: self.state }
    }
}

/// The CFI query table, by logical address.
pub open spec fn cfi_byte(logical: u64) -> u8 {
    match logical {
        0x10 => 0x51,
        0x11 => 0x52,
        0x12 => 0x59,
        0x13 => 0x01,
        0x1B => 0x27,
        0x1C => 0x36,
        0x1F => 0x09,
        0x21 => 0x0A,
        0x23 => 0x04,
        0x25 => 0x04,
        0x27 => 0x19,
        0x28 => 0x02,
        0x2C => 0x01,
        0x2D => 0x7F,
        0x30 => 0x04,
        _ => 0x00,
    }
}

/// The identification codes, by logical address.
pub open spec fn id_byte(logical: u64) -> u8 {
    match logical {
        0x00 => 0x89,
        0x01 => 0x18,
        0x02 => 0x00,
        _ => 0xFF,
    }
}

/// A table byte as a bus read of `size` bytes sees it: a four-byte read gets it
/// from each of the four interleaved chips, any other read gets it once.
pub open spec fn on_lanes(b: u8, size: u8) -> u64 {
    if size == 4 {
        (b * 0x0101_0101) as u64
    } else {
        b as u64
    }
}

impl FlashView {
    /// A read of `size` bytes at `offset`.
    pub open spec fn read(self, offset: u64, size: u8) -> Result<u64, Seq<char>> {
        match self.state {
            FlashState::ReadArray => if offset >= self.data.len() {
                Ok(u64::MAX)
            } else if offset + size > self.data.len() {
                Err("Flash 读取越界"@)
            } else {
                Ok(read_at(self.data, offset as int, size as nat) as u64)
            },
            FlashState::CfiQuery => Ok(on_lanes(cfi_byte(offset / 4), size)),
            FlashState::ReadId => Ok(on_lanes(id_byte(offset / 4), size)),
        }
    }

    /// A write of `value`: its low byte is a command.
    pub open spec fn write(self, value: u64) -> FlashView {
        let cmd = value % 256;
        if cmd == 0xFF || cmd == 0xF0 {
            FlashView { state: FlashState::ReadArray, ..self }
        } else if cmd == 0x98 {
            FlashView { state: FlashState::CfiQuery, ..self }
        } else if cmd == 0x90 {
            FlashView { state: FlashState::ReadId, ..self }
        } else {
            self
        }
    }
}

/// The message of a load that does not fit.
pub open spec fn flash_load_error(offset: nat, len: nat, size: nat) -> Seq<char> {
    "Flash 加载越界：offset="@ + decimal_text(offset) + ", len="@ + decimal_text(len)
        + ", flash_size="@ + decimal_text(size)
}

impl Flash {
    /// An erased flash of `size` bytes.
    pub fn new(size: usize) -> (f: Self)
        ensures
            f@ == (FlashView {
                data: Seq::new(size as nat, |i: int| 0xFFu8),
                state: FlashState::ReadArray,
            }),
    {
        let data: Vec<u8> = vec![0xFFu8; size];
        assert(data@ =~= Seq::new(size as nat, |i: int| 0xFFu8));
        Self { data, state: FlashState::ReadArray }
    }

    /// Copies `data` into the flash at `offset`, if it fits.
    pub fn load(&mut self, offset: usize, data: &[u8]) -> (r: Result<(), String>)
        ensures
            r is Ok <==> offset + data@.len() <= old(self)@.data.len(),
            r matches Err(e) ==> e@ == flash_load_error(
                offset as nat,
                data@.len(),
                old(self)@.data.len(),
            ),
            final(self)@ == if offset + data@.len() <= old(self)@.data.len() {
                FlashView { data: copy_at(old(self)@.data, offset as int, data@), ..old(self)@ }
            } else {
                old(self)@
            },
    {
        if data.len() > self.data.len() || offset > self.data.len() - data.len() {
            let mut e = String::new();
            e.append("Flash 加载越界：offset=");
            e.append(decimal(offset).as_str());
            e.append(", len=");
            e.append(decimal(data.len()).as_str());
            e.append(", flash_size=");
            e.append(decimal(self.data.len()).as_str());
            assert(e@ =~= flash_load_error(offset as nat, data@.len(), self.data@.len()));
            return Err(e);
        }
        copy_into(self.data.as_mut_slice(), offset, data);
        Ok(())
    }

    /// Reads `size` bytes at `offset`. The array itself is read in units of up
    /// to eight bytes.
    pub fn read(&mut self, offset: u64, size: u8) -> (r: Result<u64, &'static str>)
        requires
            old(self)@.state == FlashState::ReadArray && offset < old(self)@.data.len() && offset
                + size <= old(self)@.data.len() ==> size <= 8,
        ensures
            final(self)@ == old(self)@,
            same_result(r, old(self)@.read(offset, size)),
    {
        match self.state {
            FlashState::ReadArray => {
                if offset >= self.data.len() as u64 {
                    return Ok(u64::MAX);
                }
                self.read_data(offset as usize, size)
            },
            FlashState::CfiQuery => Ok(self.read_cfi_query(offset, size)),
            FlashState::ReadId => Ok(Self::read_id(offset, size)),
        }
    }

    /// Takes a command: the low byte of `value`. The address and the width of
    /// the write do not matter, and no command changes the stored bytes.
    pub fn write(&mut self, offset: u64, value: u64, size: u8) -> (r: Result<(), &'static str>)
        ensures
            r is Ok,
            final(self)@ == old(self)@.write(value),
    {
        let cmd: u64 = value % 256;
        match cmd {
            0xFF | 0xF0 => {
                self.state = FlashState::ReadArray;
            },
            0x98 => {
                self.state = FlashState::CfiQuery;
            },
            0x90 => {
                self.state = FlashState::ReadId;
            },
            _ => {},
        }
        Ok(())
    }

    /// Reads `size` stored bytes from index `addr` on.
    fn read_data(&self, addr: usize, size: u8) -> (r: Result<u64, &'static str>)
        requires
            addr < self@.data.len(),
            addr + size <= self@.data.len() ==> size <= 8,
        ensures
            same_result(
                r,
                if addr + size <= self@.data.len() {
                    Ok(read_at(self@.data, addr as int, size as nat) as u64)
                } else {
                    Err("Flash 读取越界"@)
                },
            ),
    {
        let n: usize = size as usize;
        if n > self.data.len() - addr {
            return Err("Flash 读取越界");
        }
        let ghost s = self.data@;
        let mut result: u64 = 0;
        let mut i: usize = n;
        while i > 0
            invariant
                i <= n <= 8,
                s == self.data@,
                addr + n <= s.len(),
                s.len() <= usize::MAX,
                result == le_value(s.subrange(addr + i, addr + n)),
            decreases i,
        {
            i = i - 1;
            proof {
                let t = s.subrange(addr + i, addr + n);
                assert(t.drop_first() =~= s.subrange(addr + i + 1, addr + n));
                lemma_le_value_bound(t);
                lemma_byte_range_grows(t.len(), 8);
                lemma_byte_ranges();
            }
            result = result * 256 + self.data[addr + i] as u64;
        }
        proof {
            assert(s.subrange(addr as int, addr + n).len() == n);
        }
        Ok(result)
    }

    /// The CFI query table at a logical address.
    pub fn get_cfi_byte(&self, logical: u64) -> (b: u8)
        ensures
            b == cfi_byte(logical),
    {
        match logical {
            // "QRY"
            0x10 => 0x51,
            0x11 => 0x52,
            0x12 => 0x59,
            // Primary command set: Intel.
            0x13 => 0x01,
            // Supply voltage, 2.7 V to 3.6 V.
            0x1B => 0x27,
            0x1C => 0x36,
            // Typical timeouts of a word write (2^9 us) and a block erase (2^10 ms).
            0x1F => 0x09,
            0x21 => 0x0A,
            // Longest timeouts, as multiples of the typical ones.
            0x23 => 0x04,
            0x25 => 0x04,
            // Size 2^25 bytes, x8/x16 interface.
            0x27 => 0x19,
            0x28 => 0x02,
            // One erase region of 128 blocks of 256 KiB.
            0x2C => 0x01,
            0x2D => 0x7F,
            0x30 => 0x04,
            _ => 0x00,
        }
    }

    /// The identification codes at a logical address.
    fn get_id_byte(logical: u64) -> (b: u8)
        ensures
            b == id_byte(logical),
    {
        match logical {
            // Intel.
            0x00 => 0x89,
            0x01 => 0x18,
            0x02 => 0x00,
            _ => 0xFF,
        }
    }

    /// A table byte as a bus read of `size` bytes sees it.
    fn replicate(b: u8, size: u8) -> (v: u64)
        ensures
            v == on_lanes(b, size),
    {
        if size == 4 {
            b as u64 * 0x0101_0101
        } else {
            b as u64
        }
    }

    /// Reads the CFI query table: the bank is four bytes wide, so the logical
    /// address is a quarter of the bus address.
    fn read_cfi_query(&self, offset: u64, size: u8) -> (v: u64)
        ensures
            v == on_lanes(cfi_byte(offset / 4), size),
    {
        Self::replicate(self.get_cfi_byte(offset / 4), size)
    }

    /// Reads the identification codes.
    fn read_id(offset: u64, size: u8) -> (v: u64)
        ensures
            v == on_lanes(id_byte(offset / 4), size),
    {
        Self::replicate(Self::get_id_byte(offset / 4), size)
    }

    /// Reads eight bytes.
    pub fn read64(&mut self, offset: u64) -> (r: Result<u64, &'static str>)
        ensures
            final(self)@ == old(self)@,
            same_result(r, old(self)@.read(offset, 8)),
    {
        self.read(offset, 8)
    }

    /// Reads four bytes.
    pub fn read32(&mut self, offset: u64) -> (r: Result<u32, &'static str>)
        ensures
            final(self)@ == old(self)@,
            same_result(r, flash_read32(old(self)@, offset)),
    {
        match self.read(offset, 4) {
            Ok(v) => Ok(v as u32),
            Err(e) => Err(e),
        }
    }

    /// Reads two bytes.
    pub fn read16(&mut self, offset: u64) -> (r: Result<u16, &'static str>)
        ensures
            final(self)@ == old(self)@,
            same_result(r, flash_read16(old(self)@, offset)),
    {
        match self.read(offset, 2) {
            Ok(v) => Ok(v as u16),
            Err(e) => Err(e),
        }
    }

    /// Reads one byte.
    pub fn read8(&mut self, offset: u64) -> (r: Result<u8, &'static str>)
        ensures
            final(self)@ == old(self)@,
            same_result(r, flash_read8(old(self)@, offset)),
    {
        match self.read(offset, 1) {
            Ok(v) => Ok(v as u8),
            Err(e) => Err(e),
        }
    }

    /// Takes a command by an eight-byte write.
    pub fn write64(&mut self, offset: u64, value: u64) -> (r: Result<(), &'static str>)
        ensures
            r is Ok,
            final(self)@ == old(self)@.write(value),
    {
        self.write(offset, value, 8)
    }

    /// Takes a command by a four-byte write.
    pub fn write32(&mut self, offset: u64, value: u32) -> (r: Result<(), &'static str>)
        ensures
            r is Ok,
            final(self)@ == old(self)@.write(value as u64),
    {
        self.write(offset, value as u64, 4)
    }

    /// Takes a command by a two-byte write.
    pub fn write16(&mut self, offset: u64, value: u16) -> (r: Result<(), &'static str>)
        ensures
            r is Ok,
            final(self)@ == old(self)@.write(value as u64),
    {
        self.write(offset, value as u64, 2)
    }

    /// Takes a command by a one-byte write.
    pub fn write8(&mut self, offset: u64, value: u8) -> (r: Result<(), &'static str>)
        ensures
            r is Ok,
            final(self)@ == old(self)@.write(value as u64),
    {
        self.write(offset, value as u64, 1)
    }
}

/// A four-byte read.
pub open spec fn flash_read32(f: FlashView, offset: u64) -> Result<u32, Seq<char>> {
    match f.read(offset, 4) {
        Ok(v) => Ok(v as u32),
        Err(e) => Err(e),
    }
}

/// A two-byte read.
pub open spec fn flash_read16(f: FlashView, offset: u64) -> Result<u16, Seq<char>> {
    match f.read(offset, 2) {
        Ok(v) => Ok(v as u16),
        Err(e) => Err(e),
    }
}

/// A one-byte read.
pub open spec fn flash_read8(f: FlashView, offset: u64) -> Result<u8, Seq<char>> {
    match f.read(offset, 1) {
        Ok(v) => Ok(v as u8),
        Err(e) => Err(e),
    }
}

/// No command changes what the flash stores: only loading does.
pub proof fn law_flash_is_read_only(f: FlashView, value: u64)
    ensures
        f.write(value).data == f.data,
{
}

/// The query table describes one geometry: a single erase region, of 128 blocks of
/// 256 KiB, which make up the 2^25 bytes that the size field says. The table starts
/// with "QRY" and is zero outside of the addresses 0x10 to 0x30. A query read gives
/// it, a quarter of the bus address being the address in it.
pub proof fn law_flash_geometry(f: FlashView, offset: u64, i: u64)
    requires
        f.state == FlashState::CfiQuery,
    ensures
        f.read(offset, 1) == Ok::<u64, Seq<char>>(cfi_byte(offset / 4) as u64),
        cfi_byte(0x10) == 'Q' as u8 && cfi_byte(0x11) == 'R' as u8 && cfi_byte(0x12) == 'Y' as u8,
        cfi_byte(0x2C) == 1,
        0x100 * cfi_byte(0x2E) + cfi_byte(0x2D) + 1 == 128,
        (0x100 * cfi_byte(0x30) + cfi_byte(0x2F)) * 256 == 256 * 1024,
        (0x100 * cfi_byte(0x2E) + cfi_byte(0x2D) + 1) * ((0x100 * cfi_byte(0x30) + cfi_byte(0x2F))
            * 256) == pow2(cfi_byte(0x27) as nat),
        pow2(cfi_byte(0x27) as nat) == 32 * 1024 * 1024,
        i < 0x10 || i > 0x30 ==> cfi_byte(i) == 0,
{
    lemma2_to64();
}

/// The reset commands bring a flash in any mode back to reading its array, and
/// the program and erase commands leave its mode alone.
pub proof fn law_flash_commands(f: FlashView)
    ensures
        f.write(0xFF).state == FlashState::ReadArray,
        f.write(0xF0).state == FlashState::ReadArray,
        f.write(0x98).state == FlashState::CfiQuery,
        f.write(0x90).state == FlashState::ReadId,
        f.write(0x10) == f,
        f.write(0x40) == f,
        f.write(0x20) == f,
        f.write(0xD0) == f,
{
}

} // verus!
