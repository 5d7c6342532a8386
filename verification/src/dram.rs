//! Main memory: an anonymous memory mapping of the host.

#[allow(unused_imports)]
use crate::bytes::{copy_at, read_at, write_at};
use crate::bytes::{
    copy_into, le_read_u16, le_read_u32, le_read_u64, le_write_u16, le_write_u32, le_write_u64,
};
#[allow(unused_imports)]
use crate::outcome::same_result;
use mmap_rs::MmapMut;
use vstd::prelude::*;

verus! {

/// Declares `mmap_rs::MmapMut`, a writable memory mapping.
#[verifier::external_type_specification]
#[verifier::external_body]
pub struct ExMmapMut(MmapMut);

/// Declares `mmap_rs::Error`.
#[verifier::external_type_specification]
#[verifier::external_body]
pub struct ExMmapError(mmap_rs::Error);

/// The bytes of a memory mapping.
pub uninterp spec fn mmap_bytes(m: MmapMut) -> Seq<u8>;

/// `MmapMut::as_slice` views the whole mapping as a slice.
pub assume_specification[ MmapMut::as_slice ](m: &MmapMut) -> (r: &[u8])
    ensures
        r@ == mmap_bytes(*m),
;

/// `MmapMut::as_mut_slice` lends the whole mapping as a mutable slice: what the
/// slice holds when the loan ends is what the mapping holds.
pub assume_specification[ MmapMut::as_mut_slice ](m: &mut MmapMut) -> (r: &mut [u8])
    ensures
        r@ == mmap_bytes(*old(m)),
        final(r)@ == mmap_bytes(*final(m)),
;

/// `MmapOptions::new(size)` refuses the size zero; `map_mut` on options with
/// nothing else set maps `size` bytes of private anonymous memory, which the
/// system hands out zeroed. Whether the system has that much memory is not
/// stated.
#[verifier::external_body]
fn map_anonymous(size: usize) -> (r: Result<MmapMut, mmap_rs::Error>)
    ensures
        r matches Ok(m) ==> size != 0 && mmap_bytes(m) == Seq::new(size as nat, |i: int| 0u8),
{
    mmap_rs::MmapOptions::new(size)?.map_mut()
}

/// The error of `Dram::new`: the host's memory could not be mapped.
#[derive(Debug)]
pub struct DramError {
    /// What the mapping reported.
    pub reason: mmap_rs::Error,
}

/// How loading from a reader goes on after one read.
#[derive(Debug, Clone, Copy, PartialEq, Eq, Structural)]
pub enum LoadProgress {
    /// The memory is filled up to this offset; read on.
    More(usize),
    /// The memory is full.
    Done,
    /// The reader ended early.
    Short {
        /// How many bytes were needed.
        expected: usize,
        /// How many bytes came.
        actual: usize,
    },
}

/// Main memory.
pub struct Dram {
    memory: MmapMut,
}

impl View for Dram {
    type V = Seq<u8>;

    closed spec fn view(&self) -> Seq<u8> {
        mmap_bytes(self.memory)
    }
}

/// An eight-byte read of a memory with the contents `s`.
pub open spec fn dram_read64(s: Seq<u8>, addr: u64) -> Result<u64, Seq<char>> {
    if addr + 8 <= s.len() {
        Ok(read_at(s, addr as int, 8) as u64)
    } else {
        Err("DRAM 读取64：地址超出范围"@)
    }
}

/// A four-byte read of a memory with the contents `s`.
pub open spec fn dram_read32(s: Seq<u8>, addr: u64) -> Result<u32, Seq<char>> {
    if addr + 4 <= s.len() {
        Ok(read_at(s, addr as int, 4) as u32)
    } else {
        Err("DRAM 读取32：地址超出范围"@)
    }
}

/// A two-byte read of a memory with the contents `s`.
pub open spec fn dram_read16(s: Seq<u8>, addr: u64) -> Result<u16, Seq<char>> {
    if addr + 2 <= s.len() {
        Ok(read_at(s, addr as int, 2) as u16)
    } else {
        Err("DRAM 读取16：地址超出范围"@)
    }
}

/// A one-byte read of a memory with the contents `s`.
pub open spec fn dram_read8(s: Seq<u8>, addr: u64) -> Result<u8, Seq<char>> {
    if addr < s.len() {
        Ok(s[addr as int])
    } else {
        Err("DRAM 读取8：地址超出范围"@)
    }
}

/// An eight-byte write to a memory with the contents `s`: its new contents and
/// the result.
pub open spec fn dram_write64(s: Seq<u8>, addr: u64, value: u64) -> (
    Seq<u8>,
    Result<(), Seq<char>>,
) {
    if addr + 8 <= s.len() {
        (write_at(s, addr as int, 8, value as nat), Ok(()))
    } else {
        (s, Err("DRAM 写入64：地址超出范围"@))
    }
}

/// A four-byte write to a memory with the contents `s`.
pub open spec fn dram_write32(s: Seq<u8>, addr: u64, value: u32) -> (
    Seq<u8>,
    Result<(), Seq<char>>,
) {
    if addr + 4 <= s.len() {
        (write_at(s, addr as int, 4, value as nat), Ok(()))
    } else {
        (s, Err("DRAM 写入32：地址超出范围"@))
    }
}

/// A two-byte write to a memory with the contents `s`.
pub open spec fn dram_write16(s: Seq<u8>, addr: u64, value: u16) -> (
    Seq<u8>,
    Result<(), Seq<char>>,
) {
    if addr + 2 <= s.len() {
        (write_at(s, addr as int, 2, value as nat), Ok(()))
    } else {
        (s, Err("DRAM 写入16：地址超出范围"@))
    }
}

/// A one-byte write to a memory with the contents `s`.
pub open spec fn dram_write8(s: Seq<u8>, addr: u64, value: u8) -> (
    Seq<u8>,
    Result<(), Seq<char>>,
) {
    if addr < s.len() {
        (s.update(addr as int, value), Ok(()))
    } else {
        (s, Err("DRAM 写入8：地址超出范围"@))
    }
}

impl Dram {
    /// Maps `size` zero bytes. A size of zero is refused; whether any other
    /// size can be had is up to the host.
    pub fn new(size: usize) -> (r: Result<Self, DramError>)
        ensures
            r matches Ok(d) ==> d@ == Seq::new(size as nat, |i: int| 0u8),
            size == 0 ==> r is Err,
    {
        Self::from_mapping(map_anonymous(size))
    }

    /// Takes what a mapping of host memory came to: a memory with the bytes of the
    /// mapping, or an error with the reason for which there is none.
    pub fn from_mapping(mapped: Result<MmapMut, mmap_rs::Error>) -> (r: Result<Self, DramError>)
        ensures
            match mapped {
                Ok(m) => r matches Ok(d) && d@ == mmap_bytes(m),
                Err(e) => r matches Err(x) && x.reason == e,
            },
    {
        match mapped {
            Ok(memory) => Ok(Self { memory }),
            Err(reason) => Err(DramError { reason }),
        }
    }

    /// Copies `data` into memory at `offset`, if it fits.
    pub fn load(&mut self, offset: usize, data: &[u8]) -> (r: Result<(), &'static str>)
        ensures
            same_result(
                r,
                if offset + data@.len() <= old(self)@.len() {
                    Ok(())
                } else {
                    Err("DRAM 加载：数据超出内存范围"@)
                },
            ),
            final(self)@ == if offset + data@.len() <= old(self)@.len() {
                copy_at(old(self)@, offset as int, data@)
            } else {
                old(self)@
            },
    {
        let s = self.memory.as_mut_slice();
        if data.len() > s.len() || offset > s.len() - data.len() {
            return Err("DRAM 加载：数据超出内存范围");
        }
        copy_into(s, offset, data);
        Ok(())
    }

    /// Takes what one read of a reader returned, with the first `offset` bytes
    /// of memory already loaded. The memory is to be filled exactly: an empty
    /// `chunk` means that the reader has ended. The reader must not have been
    /// given more room than is left.
    pub fn load_from_reader(&mut self, offset: usize, chunk: &[u8]) -> (r: LoadProgress)
        requires
            offset + chunk@.len() <= old(self)@.len(),
        ensures
            final(self)@ == copy_at(old(self)@, offset as int, chunk@),
            r == if offset + chunk@.len() == old(self)@.len() {
                LoadProgress::Done
            } else if chunk@.len() == 0 {
                LoadProgress::Short { expected: old(self)@.len() as usize, actual: offset }
            } else {
                LoadProgress::More((offset + chunk@.len()) as usize)
            },
    {
        let s = self.memory.as_mut_slice();
        let size: usize = s.len();
        copy_into(s, offset, chunk);
        let end: usize = offset + chunk.len();
        if end == size {
            LoadProgress::Done
        } else if chunk.len() == 0 {
            LoadProgress::Short { expected: size, actual: offset }
        } else {
            LoadProgress::More(end)
        }
    }

    /// Reads eight bytes, little-endian.
    pub fn read64(&self, addr: u64) -> (r: Result<u64, &'static str>)
        ensures
            same_result(r, dram_read64(self@, addr)),
    {
        let s = self.memory.as_slice();
        if s.len() < 8 || addr > (s.len() - 8) as u64 {
            return Err("DRAM 读取64：地址超出范围");
        }
        let (_, t) = s.split_at(addr as usize);
        assert(t@.subrange(0, 8) =~= s@.subrange(addr as int, addr + 8));
        Ok(le_read_u64(t))
    }

    /// Writes eight bytes, little-endian.
    pub fn write64(&mut self, addr: u64, value: u64) -> (r: Result<(), &'static str>)
        ensures
            final(self)@ == dram_write64(old(self)@, addr, value).0,
            same_result(r, dram_write64(old(self)@, addr, value).1),
    {
        let s = self.memory.as_mut_slice();
        if s.len() < 8 || addr > (s.len() - 8) as u64 {
            return Err("DRAM 写入64：地址超出范围");
        }
        let (_, t) = s.split_at_mut(addr as usize);
        le_write_u64(t, value);
        assert(self@ =~= write_at(old(self)@, addr as int, 8, value as nat));
        Ok(())
    }

    /// Reads four bytes, little-endian.
    pub fn read32(&self, addr: u64) -> (r: Result<u32, &'static str>)
        ensures
            same_result(r, dram_read32(self@, addr)),
    {
        let s = self.memory.as_slice();
        if s.len() < 4 || addr > (s.len() - 4) as u64 {
            return Err("DRAM 读取32：地址超出范围");
        }
        let (_, t) = s.split_at(addr as usize);
        assert(t@.subrange(0, 4) =~= s@.subrange(addr as int, addr + 4));
        Ok(le_read_u32(t))
    }

    /// Writes four bytes, little-endian.
    pub fn write32(&mut self, addr: u64, value: u32) -> (r: Result<(), &'static str>)
        ensures
            final(self)@ == dram_write32(old(self)@, addr, value).0,
            same_result(r, dram_write32(old(self)@, addr, value).1),
    {
        let s = self.memory.as_mut_slice();
        if s.len() < 4 || addr > (s.len() - 4) as u64 {
            return Err("DRAM 写入32：地址超出范围");
        }
        let (_, t) = s.split_at_mut(addr as usize);
        le_write_u32(t, value);
        assert(self@ =~= write_at(old(self)@, addr as int, 4, value as nat));
        Ok(())
    }

    /// Reads two bytes, little-endian.
    pub fn read16(&self, addr: u64) -> (r: Result<u16, &'static str>)
        ensures
            same_result(r, dram_read16(self@, addr)),
    {
        let s = self.memory.as_slice();
        if s.len() < 2 || addr > (s.len() - 2) as u64 {
            return Err("DRAM 读取16：地址超出范围");
        }
        let (_, t) = s.split_at(addr as usize);
        assert(t@.subrange(0, 2) =~= s@.subrange(addr as int, addr + 2));
        Ok(le_read_u16(t))
    }

    /// Writes two bytes, little-endian.
    pub fn write16(&mut self, addr: u64, value: u16) -> (r: Result<(), &'static str>)
        ensures
            final(self)@ == dram_write16(old(self)@, addr, value).0,
            same_result(r, dram_write16(old(self)@, addr, value).1),
    {
        let s = self.memory.as_mut_slice();
        if s.len() < 2 || addr > (s.len() - 2) as u64 {
            return Err("DRAM 写入16：地址超出范围");
        }
        let (_, t) = s.split_at_mut(addr as usize);
        le_write_u16(t, value);
        assert(self@ =~= write_at(old(self)@, addr as int, 2, value as nat));
        Ok(())
    }

    /// Reads one byte.
    pub fn read8(&self, addr: u64) -> (r: Result<u8, &'static str>)
        ensures
            same_result(r, dram_read8(self@, addr)),
    {
        let s = self.memory.as_slice();
        if addr >= s.len() as u64 {
            return Err("DRAM 读取8：地址超出范围");
        }
        Ok(s[addr as usize])
    }

    /// Writes one byte.
    pub fn write8(&mut self, addr: u64, value: u8) -> (r: Result<(), &'static str>)
        ensures
            final(self)@ == dram_write8(old(self)@, addr, value).0,
            same_result(r, dram_write8(old(self)@, addr, value).1),
    {
        let s = self.memory.as_mut_slice();
        if addr >= s.len() as u64 {
            return Err("DRAM 写入8：地址超出范围");
        }
        s[addr as usize] = value;
        Ok(())
    }

    /// The size of the memory in bytes.
    pub fn size(&self) -> (n: usize)
        ensures
            n == self@.len(),
    {
        self.memory.as_slice().len()
    }
}

} // verus!
