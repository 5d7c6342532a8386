//! Mask ROM: the boot code. The bus offers no way to write to it.

#[allow(unused_imports)]
use crate::bytes::{copy_at, read_at};
use crate::bytes::{copy_into, le_read_u16, le_read_u32, le_read_u64};
#[allow(unused_imports)]
use crate::outcome::same_result;
use vstd::prelude::*;

verus! {

/// A read-only memory.
pub struct Mrom {
    memory: Vec<u8>,
}

impl View for Mrom {
    type V = Seq<u8>;

    closed spec fn view(&self) -> Seq<u8> {
        self.memory@
    }
}

/// An eight-byte read of a ROM with the contents `s`.
pub open spec fn mrom_read64(s: Seq<u8>, addr: u64) -> Result<u64, Seq<char>> {
    if addr + 8 <= s.len() {
        Ok(read_at(s, addr as int, 8) as u64)
    } else {
        Err("MROM 读取64：地址超出范围"@)
    }
}

/// A four-byte read of a ROM with the contents `s`.
pub open spec fn mrom_read32(s: Seq<u8>, addr: u64) -> Result<u32, Seq<char>> {
    if addr + 4 <= s.len() {
        Ok(read_at(s, addr as int, 4) as u32)
    } else {
        Err("MROM 读取32：地址超出范围"@)
    }
}

/// A two-byte read of a ROM with the contents `s`.
pub open spec fn mrom_read16(s: Seq<u8>, addr: u64) -> Result<u16, Seq<char>> {
    if addr + 2 <= s.len() {
        Ok(read_at(s, addr as int, 2) as u16)
    } else {
        Err("MROM 读取16：地址超出范围"@)
    }
}

/// A one-byte read of a ROM with the contents `s`.
pub open spec fn mrom_read8(s: Seq<u8>, addr: u64) -> Result<u8, Seq<char>> {
    if addr < s.len() {
        Ok(s[addr as int])
    } else {
        Err("MROM 读取8：地址超出范围"@)
    }
}

impl Mrom {
    /// A ROM of `size` zero bytes; this never fails.
    pub fn new(size: usize) -> (r: Result<Self, &'static str>)
        ensures
            r matches Ok(m) && m@ == Seq::new(size as nat, |i: int| 0u8),
    {
        let memory: Vec<u8> = vec![0u8; size];
        assert(memory@ =~= Seq::new(size as nat, |i: int| 0u8));
        Ok(Self { memory })
    }

    /// Copies `data` into the ROM at `offset`, if it fits.
    pub fn load(&mut self, offset: usize, data: &[u8]) -> (r: Result<(), &'static str>)
        ensures
            same_result(
                r,
                if offset + data@.len() <= old(self)@.len() {
                    Ok(())
                } else {
                    Err("MROM 加载：数据超出内存范围"@)
                },
            ),
            final(self)@ == if offset + data@.len() <= old(self)@.len() {
                copy_at(old(self)@, offset as int, data@)
            } else {
                old(self)@
            },
    {
        if data.len() > self.memory.len() || offset > self.memory.len() - data.len() {
            return Err("MROM 加载：数据超出内存范围");
        }
        copy_into(self.memory.as_mut_slice(), offset, data);
        Ok(())
    }

    /// Reads four bytes, little-endian.
    pub fn read32(&self, addr: u64) -> (r: Result<u32, &'static str>)
        ensures
            same_result(r, mrom_read32(self@, addr)),
    {
        let s = self.memory.as_slice();
        if s.len() < 4 || addr > (s.len() - 4) as u64 {
            return Err("MROM 读取32：地址超出范围");
        }
        let (_, t) = s.split_at(addr as usize);
        assert(t@.subrange(0, 4) =~= s@.subrange(addr as int, addr + 4));
        Ok(le_read_u32(t))
    }

    /// Reads eight bytes, little-endian.
    pub fn read64(&self, addr: u64) -> (r: Result<u64, &'static str>)
        ensures
            same_result(r, mrom_read64(self@, addr)),
    {
        let s = self.memory.as_slice();
        if s.len() < 8 || addr > (s.len() - 8) as u64 {
            return Err("MROM 读取64：地址超出范围");
        }
        let (_, t) = s.split_at(addr as usize);
        assert(t@.subrange(0, 8) =~= s@.subrange(addr as int, addr + 8));
        Ok(le_read_u64(t))
    }

    /// Reads two bytes, little-endian.
    pub fn read16(&self, addr: u64) -> (r: Result<u16, &'static str>)
        ensures
            same_result(r, mrom_read16(self@, addr)),
    {
        let s = self.memory.as_slice();
        if s.len() < 2 || addr > (s.len() - 2) as u64 {
            return Err("MROM 读取16：地址超出范围");
        }
        let (_, t) = s.split_at(addr as usize);
        assert(t@.subrange(0, 2) =~= s@.subrange(addr as int, addr + 2));
        Ok(le_read_u16(t))
    }

    /// Reads one byte.
    pub fn read8(&self, addr: u64) -> (r: Result<u8, &'static str>)
        ensures
            same_result(r, mrom_read8(self@, addr)),
    {
        if addr >= self.memory.len() as u64 {
            return Err("MROM 读取8：地址超出范围");
        }
        Ok(self.memory[addr as usize])
    }

    /// The size of the ROM in bytes.
    pub fn size(&self) -> (n: usize)
        ensures
            n == self@.len(),
    {
        self.memory.len()
    }
}

} // verus!
